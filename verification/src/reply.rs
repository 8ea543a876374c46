//! The JSON bodies of answers: chat completions, their chunks, and responses.
use crate::config::{random_form, random_id};
use crate::json::{lemma_items_view, Json, JsonView};
use crate::names::lemma_names;
use crate::text::{joined, same_text};
use vstd::prelude::*;

verus! {

/// The array of these values.
fn array_of(items: Vec<Json>) -> (value: Json)
    ensures
        value@ is Array,
        value@->Array_0.len() == items.len(),
        forall|i: int| 0 <= i < items.len() ==> #[trigger] value@->Array_0[i] == items[i]@,
{
    proof {
        lemma_items_view(items@);
    }
    Json::Array(items)
}

/// The array with one value.
fn single(item: Json) -> (value: Json)
    ensures
        value@ == JsonView::Array(seq![item@]),
{
    let mut items: Vec<Json> = Vec::new();
    let ghost only = item@;
    items.push(item);
    let value = array_of(items);
    assert(value@->Array_0 == seq![only]);
    value
}

/// The array without values.
pub fn empty_array() -> (value: Json)
    ensures
        value@ == JsonView::Array(Seq::empty()),
{
    Json::Array(Vec::new())
}

/// How the name of an answer begins.
pub open spec fn id_prefix(responses: bool) -> Seq<char> {
    if responses {
        "resp_"@
    } else {
        "chatcmpl-"@
    }
}

/// A name that an answer may have.
pub open spec fn reply_name(id: Seq<char>, responses: bool) -> bool {
    exists|unique: Seq<char>| #[trigger] random_form(unique) && id == id_prefix(responses) + unique
}

/// A new random name for an answer.
pub fn reply_id(responses: bool) -> (id: String)
    ensures
        reply_name(id@, responses),
{
    let unique = random_id();
    assert(random_form(unique@));
    if responses {
        joined("resp_", unique.as_str())
    } else {
        joined("chatcmpl-", unique.as_str())
    }
}

/// What identifies an answer, whatever it says.
pub struct ReplyInfo {
    pub id: String,
    pub created: u64,
    pub model: String,
    /// Whether it answers a responses request; a chat completion otherwise.
    pub responses: bool,
}

#[verifier::ext_equal]
pub struct ReplyInfoView {
    pub id: Seq<char>,
    pub created: u64,
    pub model: Seq<char>,
    pub responses: bool,
}

impl View for ReplyInfo {
    type V = ReplyInfoView;

    open spec fn view(&self) -> ReplyInfoView {
        ReplyInfoView {
            id: self.id@,
            created: self.created,
            model: self.model@,
            responses: self.responses,
        }
    }
}

/// One chunk of a streamed chat completion.
pub open spec fn chunk_view(info: ReplyInfoView, delta: JsonView, finish: JsonView) -> JsonView {
    JsonView::object().with("id"@, JsonView::Text(info.id)).with(
        "object"@,
        JsonView::Text("chat.completion.chunk"@),
    ).with("created"@, JsonView::Integer(info.created as int)).with(
        "model"@,
        JsonView::Text(info.model),
    ).with(
        "choices"@,
        JsonView::Array(
            seq![
                JsonView::object().with("index"@, JsonView::Integer(0)).with("delta"@, delta).with(
                    "finish_reason"@,
                    finish,
                ),
            ],
        ),
    )
}

/// One chunk of a streamed chat completion.
pub fn chunk(info: &ReplyInfo, delta: Json, finish: Json) -> (value: Json)
    ensures
        value@ == chunk_view(info@, delta@, finish@),
{
    let choice = Json::object().with("index", Json::Unsigned(0)).with("delta", delta).with(
        "finish_reason",
        finish,
    );
    Json::object().with("id", Json::text(info.id.as_str())).with(
        "object",
        Json::text("chat.completion.chunk"),
    ).with("created", Json::Unsigned(info.created)).with(
        "model",
        Json::text(info.model.as_str()),
    ).with("choices", single(choice))
}

/// The tokens that the backend reported, as a chat completion reports them; nothing
/// is reported where the backend reported nothing.
pub open spec fn chat_usage_view(usage: JsonView) -> JsonView {
    if usage == JsonView::Null {
        JsonView::Null
    } else {
        JsonView::object().with("prompt_tokens"@, usage.at("inputTokens"@)).with(
            "completion_tokens"@,
            usage.at("outputTokens"@),
        ).with("total_tokens"@, usage.at("totalTokens"@)).with(
            "prompt_tokens_details"@,
            JsonView::object().with("cached_tokens"@, usage.at("cachedInputTokens"@)),
        ).with(
            "completion_tokens_details"@,
            JsonView::object().with("reasoning_tokens"@, usage.at("reasoningOutputTokens"@)),
        )
    }
}

/// The tokens that the backend reported, as a chat completion reports them.
pub fn chat_usage(usage: &Json) -> (value: Json)
    ensures
        value@ == chat_usage_view(usage@),
{
    if usage.is_null() {
        return Json::Null;
    }
    Json::object().with("prompt_tokens", usage.at("inputTokens").clone()).with(
        "completion_tokens",
        usage.at("outputTokens").clone(),
    ).with("total_tokens", usage.at("totalTokens").clone()).with(
        "prompt_tokens_details",
        Json::object().with("cached_tokens", usage.at("cachedInputTokens").clone()),
    ).with(
        "completion_tokens_details",
        Json::object().with("reasoning_tokens", usage.at("reasoningOutputTokens").clone()),
    )
}

/// The last message of a chat stream, which reports the tokens used.
pub open spec fn usage_chunk_view(info: ReplyInfoView, usage: JsonView) -> JsonView {
    JsonView::object().with("id"@, JsonView::Text(info.id)).with(
        "object"@,
        JsonView::Text("chat.completion.chunk"@),
    ).with("created"@, JsonView::Integer(info.created as int)).with(
        "model"@,
        JsonView::Text(info.model),
    ).with("choices"@, JsonView::Array(Seq::empty())).with("usage"@, chat_usage_view(usage))
}

/// The last message of a chat stream, which reports the tokens used.
pub fn usage_chunk(info: &ReplyInfo, usage: &Json) -> (value: Json)
    ensures
        value@ == usage_chunk_view(info@, usage@),
{
    Json::object().with("id", Json::text(info.id.as_str())).with(
        "object",
        Json::text("chat.completion.chunk"),
    ).with("created", Json::Unsigned(info.created)).with(
        "model",
        Json::text(info.model.as_str()),
    ).with("choices", empty_array()).with("usage", chat_usage(usage))
}

/// A whole chat completion.
pub open spec fn completion_view(
    info: ReplyInfoView,
    text: Seq<char>,
    usage: JsonView,
) -> JsonView {
    JsonView::object().with("id"@, JsonView::Text(info.id)).with(
        "object"@,
        JsonView::Text("chat.completion"@),
    ).with("created"@, JsonView::Integer(info.created as int)).with(
        "model"@,
        JsonView::Text(info.model),
    ).with(
        "choices"@,
        JsonView::Array(
            seq![
                JsonView::object().with("index"@, JsonView::Integer(0)).with(
                    "message"@,
                    JsonView::object().with("role"@, JsonView::Text("assistant"@)).with(
                        "content"@,
                        JsonView::Text(text),
                    ),
                ).with("finish_reason"@, JsonView::Text("stop"@)),
            ],
        ),
    ).with("usage"@, chat_usage_view(usage))
}

/// A whole chat completion.
pub fn completion(info: &ReplyInfo, text: &str, usage: &Json) -> (value: Json)
    ensures
        value@ == completion_view(info@, text@, usage@),
{
    let message = Json::object().with("role", Json::text("assistant")).with(
        "content",
        Json::text(text),
    );
    let choice = Json::object().with("index", Json::Unsigned(0)).with("message", message).with(
        "finish_reason",
        Json::text("stop"),
    );
    Json::object().with("id", Json::text(info.id.as_str())).with(
        "object",
        Json::text("chat.completion"),
    ).with("created", Json::Unsigned(info.created)).with(
        "model",
        Json::text(info.model.as_str()),
    ).with("choices", single(choice)).with("usage", chat_usage(usage))
}

/// The text part of a response's message.
pub open spec fn output_part_view(text: Seq<char>) -> JsonView {
    JsonView::object().with("type"@, JsonView::Text("output_text"@)).with(
        "text"@,
        JsonView::Text(text),
    ).with("annotations"@, JsonView::Array(Seq::empty())).with(
        "logprobs"@,
        JsonView::Array(Seq::empty()),
    )
}

/// The text part of a response's message.
pub fn output_part(text: &str) -> (value: Json)
    ensures
        value@ == output_part_view(text@),
{
    Json::object().with("type", Json::text("output_text")).with("text", Json::text(text)).with(
        "annotations",
        empty_array(),
    ).with("logprobs", empty_array())
}

/// The message of a response.
pub open spec fn output_item_view(id: Seq<char>, text: Seq<char>, status: Seq<char>) -> JsonView {
    JsonView::object().with("id"@, JsonView::Text("msg_"@ + id)).with(
        "type"@,
        JsonView::Text("message"@),
    ).with("role"@, JsonView::Text("assistant"@)).with(
        "status"@,
        JsonView::Text(
            if status == "completed"@ {
                "completed"@
            } else {
                "incomplete"@
            },
        ),
    ).with("content"@, JsonView::Array(seq![output_part_view(text)]))
}

/// The message of a response whose status is `status`.
pub fn output_item(id: &str, text: &str, status: &str) -> (value: Json)
    ensures
        value@ == output_item_view(id@, text@, status@),
{
    let item_status = if same_text(status, "completed") {
        "completed"
    } else {
        "incomplete"
    };
    Json::object().with("id", Json::Text(joined("msg_", id))).with(
        "type",
        Json::text("message"),
    ).with("role", Json::text("assistant")).with("status", Json::text(item_status)).with(
        "content",
        single(output_part(text)),
    )
}

/// The tokens that the backend reported, as a response reports them.
pub open spec fn response_usage_view(usage: JsonView) -> JsonView {
    if usage == JsonView::Null {
        JsonView::Null
    } else {
        JsonView::object().with("input_tokens"@, usage.at("inputTokens"@)).with(
            "output_tokens"@,
            usage.at("outputTokens"@),
        ).with("total_tokens"@, usage.at("totalTokens"@)).with(
            "input_tokens_details"@,
            JsonView::object().with("cached_tokens"@, usage.at("cachedInputTokens"@)),
        ).with(
            "output_tokens_details"@,
            JsonView::object().with("reasoning_tokens"@, usage.at("reasoningOutputTokens"@)),
        )
    }
}

fn response_usage(usage: &Json) -> (value: Json)
    ensures
        value@ == response_usage_view(usage@),
{
    if usage.is_null() {
        return Json::Null;
    }
    Json::object().with("input_tokens", usage.at("inputTokens").clone()).with(
        "output_tokens",
        usage.at("outputTokens").clone(),
    ).with("total_tokens", usage.at("totalTokens").clone()).with(
        "input_tokens_details",
        Json::object().with("cached_tokens", usage.at("cachedInputTokens").clone()),
    ).with(
        "output_tokens_details",
        Json::object().with("reasoning_tokens", usage.at("reasoningOutputTokens").clone()),
    )
}

/// A response in the state `status`; it has no output while it is in progress.
pub open spec fn response_view(
    info: ReplyInfoView,
    text: Seq<char>,
    status: Seq<char>,
    usage: JsonView,
) -> JsonView {
    JsonView::object().with("id"@, JsonView::Text(info.id)).with(
        "object"@,
        JsonView::Text("response"@),
    ).with("created_at"@, JsonView::Integer(info.created as int)).with(
        "model"@,
        JsonView::Text(info.model),
    ).with("status"@, JsonView::Text(status)).with("error"@, JsonView::Null).with(
        "incomplete_details"@,
        JsonView::Null,
    ).with(
        "output"@,
        JsonView::Array(
            if status == "in_progress"@ {
                Seq::empty()
            } else {
                seq![output_item_view(info.id, text, status)]
            },
        ),
    ).with("parallel_tool_calls"@, JsonView::Bool(false)).with(
        "tools"@,
        JsonView::Array(Seq::empty()),
    ).with("tool_choice"@, JsonView::Text("none"@)).with("store"@, JsonView::Bool(false)).with(
        "usage"@,
        response_usage_view(usage),
    )
}

/// A response in the state `status`.
pub fn response_object(info: &ReplyInfo, text: &str, status: &str, usage: &Json) -> (value: Json)
    ensures
        value@ == response_view(info@, text@, status@, usage@),
{
    let output = if same_text(status, "in_progress") {
        empty_array()
    } else {
        single(output_item(info.id.as_str(), text, status))
    };
    Json::object().with("id", Json::text(info.id.as_str())).with(
        "object",
        Json::text("response"),
    ).with("created_at", Json::Unsigned(info.created)).with(
        "model",
        Json::text(info.model.as_str()),
    ).with("status", Json::text(status)).with("error", Json::Null).with(
        "incomplete_details",
        Json::Null,
    ).with("output", output).with("parallel_tool_calls", Json::Bool(false)).with(
        "tools",
        empty_array(),
    ).with("tool_choice", Json::text("none")).with("store", Json::Bool(false)).with(
        "usage",
        response_usage(usage),
    )
}

/// The whole answer to a request that was not streamed.
pub open spec fn reply_view(info: ReplyInfoView, text: Seq<char>, usage: JsonView) -> JsonView {
    if info.responses {
        response_view(info, text, "completed"@, usage)
    } else {
        completion_view(info, text, usage)
    }
}

/// The whole answer to a request that was not streamed.
pub fn reply(info: &ReplyInfo, text: &str, usage: &Json) -> (value: Json)
    ensures
        value@ == reply_view(info@, text@, usage@),
{
    if info.responses {
        response_object(info, text, "completed", usage)
    } else {
        completion(info, text, usage)
    }
}

/// The tokens of an answer are those that the backend reported, and none where it
/// reported none.
pub proof fn law_usage_is_passed_on(info: ReplyInfoView, text: Seq<char>, usage: JsonView)
    ensures
        reply_view(info, text, JsonView::Null).at("usage"@) == JsonView::Null,
        usage != JsonView::Null ==> {
            let reported = reply_view(info, text, usage).at("usage"@);
            &&& reported.at("total_tokens"@) == usage.at("totalTokens"@)
            &&& info.responses ==> reported.at("input_tokens"@) == usage.at("inputTokens"@)
                && reported.at("output_tokens"@) == usage.at("outputTokens"@) && reported.at(
                "input_tokens_details"@,
            ).at("cached_tokens"@) == usage.at("cachedInputTokens"@) && reported.at(
                "output_tokens_details"@,
            ).at("reasoning_tokens"@) == usage.at("reasoningOutputTokens"@)
            &&& !info.responses ==> reported.at("prompt_tokens"@) == usage.at("inputTokens"@)
                && reported.at("completion_tokens"@) == usage.at("outputTokens"@) && reported.at(
                "prompt_tokens_details"@,
            ).at("cached_tokens"@) == usage.at("cachedInputTokens"@) && reported.at(
                "completion_tokens_details"@,
            ).at("reasoning_tokens"@) == usage.at("reasoningOutputTokens"@)
        },
{
    lemma_names();
}

/// A chat completion holds the text of the answer as it is, as the one message of the one
/// choice, under its own name, time and model.
pub proof fn law_completion_holds_the_text(info: ReplyInfoView, text: Seq<char>, usage: JsonView)
    ensures
        ({
            let body = completion_view(info, text, usage);
            let choice = body.at("choices"@).item(0);
            &&& body.at("choices"@).count() == 1
            &&& choice.at("message"@).at("content"@) == JsonView::Text(text)
            &&& choice.at("message"@).at("role"@) == JsonView::Text("assistant"@)
            &&& choice.at("finish_reason"@) == JsonView::Text("stop"@)
            &&& choice.at("index"@) == JsonView::Integer(0)
            &&& body.at("id"@) == JsonView::Text(info.id)
            &&& body.at("object"@) == JsonView::Text("chat.completion"@)
            &&& body.at("created"@) == JsonView::Integer(info.created as int)
            &&& body.at("model"@) == JsonView::Text(info.model)
            &&& body.field("usage"@) is Some
            &&& body.field("error"@) is None
        }),
{
    lemma_names();
}

/// A response holds the text of the answer as it is, as the one part of its one message,
/// under its own name, time and model. While it is in progress it has no message, and one
/// that is not completed says so of its message too. It is stored nowhere and has no tools.
pub proof fn law_response_holds_the_text(
    info: ReplyInfoView,
    text: Seq<char>,
    status: Seq<char>,
    usage: JsonView,
)
    ensures
        ({
            let body = response_view(info, text, status, usage);
            let item = body.at("output"@).item(0);
            let part = item.at("content"@).item(0);
            &&& body.at("output"@).count() == if status == "in_progress"@ {
                0nat
            } else {
                1nat
            }
            &&& status != "in_progress"@ ==> {
                &&& item.at("content"@).count() == 1
                &&& part.at("text"@) == JsonView::Text(text)
                &&& part.at("type"@) == JsonView::Text("output_text"@)
                &&& item.at("id"@) == JsonView::Text("msg_"@ + info.id)
                &&& item.at("type"@) == JsonView::Text("message"@)
                &&& item.at("role"@) == JsonView::Text("assistant"@)
                &&& (item.at("status"@) == JsonView::Text("completed"@) <==> status
                    == "completed"@)
                &&& (item.at("status"@) == JsonView::Text("incomplete"@) <==> status
                    != "completed"@)
            }
            &&& body.at("id"@) == JsonView::Text(info.id)
            &&& body.at("object"@) == JsonView::Text("response"@)
            &&& body.at("created_at"@) == JsonView::Integer(info.created as int)
            &&& body.at("model"@) == JsonView::Text(info.model)
            &&& body.at("status"@) == JsonView::Text(status)
            &&& body.at("error"@) == JsonView::Null
            &&& body.at("store"@) == JsonView::Bool(false)
            &&& body.at("tools"@) == JsonView::Array(Seq::empty())
            &&& body.field("usage"@) is Some
        }),
{
    lemma_names();
    reveal_strlit("completed");
    reveal_strlit("incomplete");
    assert("completed"@.len() == 9 && "incomplete"@.len() == 10);
}

/// The whole answer holds the text as it is, whichever way it was asked for: two answers
/// under one name are the same only where they say the same.
pub proof fn law_whole_answer_holds_the_text(
    info: ReplyInfoView,
    text: Seq<char>,
    usage: JsonView,
    other: Seq<char>,
)
    ensures
        ({
            let body = reply_view(info, text, usage);
            &&& info.responses ==> body.at("output"@).item(0).at("content"@).item(0).at("text"@)
                == JsonView::Text(text) && body.at("status"@) == JsonView::Text("completed"@)
            &&& !info.responses ==> body.at("choices"@).item(0).at("message"@).at("content"@)
                == JsonView::Text(text)
            &&& body.at("id"@) == JsonView::Text(info.id)
            &&& body.at("model"@) == JsonView::Text(info.model)
            &&& body == reply_view(info, other, usage) ==> text == other
        }),
{
    reveal_strlit("completed");
    reveal_strlit("in_progress");
    assert("completed"@.len() == 9 && "in_progress"@.len() == 11);
    law_completion_holds_the_text(info, text, usage);
    law_completion_holds_the_text(info, other, usage);
    law_response_holds_the_text(info, text, "completed"@, usage);
    law_response_holds_the_text(info, other, "completed"@, usage);
}

/// A chunk carries what is new and why the answer ended, as they are given, in its one
/// choice; the chunk that reports the tokens has no choice.
pub proof fn law_chunk_carries_what_is_given(
    info: ReplyInfoView,
    delta: JsonView,
    finish: JsonView,
    usage: JsonView,
)
    ensures
        ({
            let chunk = chunk_view(info, delta, finish);
            let last = usage_chunk_view(info, usage);
            &&& chunk.at("choices"@).count() == 1
            &&& chunk.at("choices"@).item(0).at("delta"@) == delta
            &&& chunk.at("choices"@).item(0).at("finish_reason"@) == finish
            &&& chunk.at("choices"@).item(0).at("index"@) == JsonView::Integer(0)
            &&& chunk.field("usage"@) is None
            &&& last.at("choices"@) == JsonView::Array(Seq::empty())
            &&& chunk.at("id"@) == JsonView::Text(info.id) && last.at("id"@) == JsonView::Text(
                info.id,
            )
            &&& chunk.at("model"@) == JsonView::Text(info.model) && last.at("model"@)
                == JsonView::Text(info.model)
            &&& chunk.at("created"@) == JsonView::Integer(info.created as int) && last.at(
                "created"@,
            ) == JsonView::Integer(info.created as int)
            &&& chunk.at("object"@) == JsonView::Text("chat.completion.chunk"@) && last.at(
                "object"@,
            ) == JsonView::Text("chat.completion.chunk"@)
            &&& (last.at("usage"@) == JsonView::Null <==> usage == JsonView::Null)
            &&& usage != JsonView::Null ==> {
                &&& last.at("usage"@).at("prompt_tokens"@) == usage.at("inputTokens"@)
                &&& last.at("usage"@).at("completion_tokens"@) == usage.at("outputTokens"@)
                &&& last.at("usage"@).at("total_tokens"@) == usage.at("totalTokens"@)
                &&& last.at("usage"@).at("prompt_tokens_details"@).at("cached_tokens"@)
                    == usage.at("cachedInputTokens"@)
                &&& last.at("usage"@).at("completion_tokens_details"@).at("reasoning_tokens"@)
                    == usage.at("reasoningOutputTokens"@)
            }
        }),
{
    lemma_names();
}

/// The name of an answer begins by the way it was asked for.
pub proof fn law_answer_is_named_by_its_way(id: Seq<char>)
    ensures
        reply_name(id, true) ==> id.len() == 37 && id.take(5) == "resp_"@,
        reply_name(id, false) ==> id.len() == 41 && id.take(9) == "chatcmpl-"@,
{
    reveal_strlit("resp_");
    reveal_strlit("chatcmpl-");
    assert("resp_"@.len() == 5 && "chatcmpl-"@.len() == 9);
    if reply_name(id, true) {
        assert(id.take(5) =~= "resp_"@);
    }
    if reply_name(id, false) {
        assert(id.take(9) =~= "chatcmpl-"@);
    }
}

} // verus!
