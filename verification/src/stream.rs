//! From the backend's events to an answer: one JSON body, or a stream of frames.
use crate::api::{ApiError, ApiErrorView};
use crate::backend::{
    caught_up, is_delta, is_item_end, law_delta_is_reported_as_it_came,
    law_item_text_is_reported_once, law_other_messages_change_nothing, law_token_report_is_kept,
    law_turn_ends_by_its_status, law_usage_is_as_reported, lemma_caught_up_push,
    lemma_caught_up_stops, name_of, reported_usage, told, ActionView, BackendView, EventView,
    GenerationEvent, StageView,
};
use crate::failure::Failure;
use crate::json::{Json, JsonView};
use crate::reply::{
    chunk, chunk_view, empty_array, output_item, output_item_view, output_part, output_part_view,
    reply, reply_view, response_object, response_view, usage_chunk, usage_chunk_view, ReplyInfo,
    ReplyInfoView, law_usage_is_passed_on, law_whole_answer_holds_the_text,
};
use crate::names::lemma_names;
use crate::text::{contains, has_part, joined, stands_at};
use crate::value::{json_text, one_line, parsed_json, plain};
use vstd::prelude::*;

verus! {

// ---------------------------------------------------------------------------
// One JSON body

/// The refusal that a failure of the backend becomes: a timeout is told apart.
pub open spec fn backend_error(message: Seq<char>) -> ApiErrorView {
    ApiErrorView {
        status: if contains(message, "timed out"@) {
            504
        } else {
            502
        },
        message,
    }
}

/// What an event of the backend means for an answer that is not streamed: nothing yet,
/// the answer, or its refusal. `None` stands for the end of the events.
pub open spec fn answer_of(
    info: ReplyInfoView,
    text: Seq<char>,
    event: Option<EventView>,
) -> Option<Result<JsonView, ApiErrorView>> {
    match event {
        Some(EventView::Delta(_)) => None,
        Some(EventView::Done(usage)) => Some(Ok(reply_view(info, text, usage))),
        Some(EventView::Error(message)) => Some(Err(backend_error(message))),
        None => Some(
            Err(
                ApiErrorView {
                    status: 502,
                    message: "Codex closed without completing the response"@,
                },
            ),
        ),
    }
}

/// The text after an event.
pub open spec fn text_after(text: Seq<char>, event: Option<EventView>) -> Seq<char> {
    match event {
        Some(EventView::Delta(more)) => text + more,
        _ => text,
    }
}

/// An event that may be missing.
pub open spec fn event_view(event: Option<GenerationEvent>) -> Option<EventView> {
    match event {
        Some(e) => Some(e@),
        None => None,
    }
}

/// An answer as it stands for its reader.
pub open spec fn answer_view(answer: Option<Result<Json, ApiError>>) -> Option<
    Result<JsonView, ApiErrorView>,
> {
    match answer {
        None => None,
        Some(Ok(body)) => Some(Ok(body@)),
        Some(Err(error)) => Some(Err(error@)),
    }
}

/// An answer that is collected until the backend is done.
pub struct Collector {
    pub info: ReplyInfo,
    pub text: String,
}

impl Collector {
    pub fn new(info: ReplyInfo) -> (collector: Collector)
        ensures
            collector.info@ == info@,
            collector.text@ == Seq::<char>::empty(),
    {
        Collector { info, text: String::new() }
    }

    /// Takes an event of the backend, or the end of the events.
    pub fn receive(&mut self, event: Option<GenerationEvent>) -> (answer: Option<
        Result<Json, ApiError>,
    >)
        ensures
            answer_view(answer) == answer_of(old(self).info@, old(self).text@, event_view(event)),
            final(self).text@ == text_after(old(self).text@, event_view(event)),
            final(self).info@ == old(self).info@,
    {
        match event {
            Some(GenerationEvent::Delta(delta)) => {
                self.text.append(delta.as_str());
                None
            },
            Some(GenerationEvent::Done(usage)) => Some(
                Ok(reply(&self.info, self.text.as_str(), &usage)),
            ),
            Some(GenerationEvent::Error(message)) => {
                let status: u16 = if has_part(message.as_str(), "timed out") {
                    504
                } else {
                    502
                };
                Some(Err(ApiError::new(status, message)))
            },
            None => Some(
                Err(
                    ApiError::new(
                        502,
                        "Codex closed without completing the response".to_owned(),
                    ),
                ),
            ),
        }
    }
}

// ---------------------------------------------------------------------------
// A stream of frames

/// One server-sent event: its name, if it has one, and its data.
pub struct Frame {
    pub event: Option<String>,
    pub data: String,
}

#[verifier::ext_equal]
pub struct FrameView {
    pub event: Option<Seq<char>>,
    pub data: Seq<char>,
}

impl View for Frame {
    type V = FrameView;

    open spec fn view(&self) -> FrameView {
        FrameView {
            event: match self.event {
                Some(name) => Some(name@),
                None => None,
            },
            data: self.data@,
        }
    }
}

/// The frames of a list.
pub open spec fn frames(list: Seq<Frame>) -> Seq<FrameView> {
    list.map_values(|frame: Frame| frame@)
}

/// The message with its number in the stream.
pub open spec fn numbered(value: JsonView, number: int) -> JsonView {
    value.with("sequence_number"@, JsonView::Integer(number))
}

/// The name of a message's event: its type.
pub open spec fn event_name(value: JsonView) -> Seq<char> {
    match value.at("type"@).text() {
        Some(name) => name,
        None => "error"@,
    }
}

/// A message as it is sent; in a responses stream it carries its number.
pub open spec fn sent(value: JsonView, responses: bool, number: int) -> JsonView {
    if responses {
        numbered(value, number)
    } else {
        value
    }
}

/// The frame of a message. Those of a responses stream have a name.
pub open spec fn frame_view(value: JsonView, responses: bool, number: int) -> FrameView {
    FrameView {
        event: if responses {
            Some(event_name(value))
        } else {
            None
        },
        data: json_text(sent(value, responses, number)),
    }
}

/// Whether the data of a frame reads back as the message that was sent, where that is a
/// tree that can.
pub open spec fn reads_back(
    frame: FrameView,
    value: JsonView,
    responses: bool,
    number: int,
) -> bool {
    plain(sent(value, responses, number), 127) ==> parsed_json(frame.data) == Some(
        sent(value, responses, number),
    )
}

/// The frames of messages that follow one another from `number` on.
pub open spec fn message_frames(values: Seq<JsonView>, responses: bool, number: int) -> Seq<
    FrameView,
> {
    Seq::new(values.len(), |i: int| frame_view(values[i], responses, number + i))
}

/// The last frame of a chat stream that came to its end.
pub open spec fn done_frame() -> FrameView {
    FrameView { event: None, data: "[DONE]"@ }
}

/// The messages that open a stream.
pub open spec fn opening_values(info: ReplyInfoView) -> Seq<JsonView> {
    if info.responses {
        let begun = response_view(info, Seq::empty(), "in_progress"@, JsonView::Null);
        seq![
            JsonView::object().with("type"@, JsonView::Text("response.created"@)).with(
                "response"@,
                begun,
            ),
            JsonView::object().with("type"@, JsonView::Text("response.in_progress"@)).with(
                "response"@,
                begun,
            ),
            JsonView::object().with("type"@, JsonView::Text("response.output_item.added"@)).with(
                "output_index"@,
                JsonView::Integer(0),
            ).with(
                "item"@,
                JsonView::object().with("id"@, JsonView::Text("msg_"@ + info.id)).with(
                    "type"@,
                    JsonView::Text("message"@),
                ).with("role"@, JsonView::Text("assistant"@)).with(
                    "status"@,
                    JsonView::Text("in_progress"@),
                ).with("content"@, JsonView::Array(Seq::empty())),
            ),
            JsonView::object().with("type"@, JsonView::Text("response.content_part.added"@)).with(
                "item_id"@,
                JsonView::Text("msg_"@ + info.id),
            ).with("output_index"@, JsonView::Integer(0)).with(
                "content_index"@,
                JsonView::Integer(0),
            ).with(
                "part"@,
                JsonView::object().with("type"@, JsonView::Text("output_text"@)).with(
                    "text"@,
                    JsonView::Text(""@),
                ).with("annotations"@, JsonView::Array(Seq::empty())),
            ),
        ]
    } else {
        seq![
            chunk_view(
                info,
                JsonView::object().with("role"@, JsonView::Text("assistant"@)).with(
                    "content"@,
                    JsonView::Text(""@),
                ),
                JsonView::Null,
            ),
        ]
    }
}

/// The message for more text.
pub open spec fn delta_value(info: ReplyInfoView, delta: Seq<char>) -> JsonView {
    if info.responses {
        JsonView::object().with("type"@, JsonView::Text("response.output_text.delta"@)).with(
            "item_id"@,
            JsonView::Text("msg_"@ + info.id),
        ).with("output_index"@, JsonView::Integer(0)).with(
            "content_index"@,
            JsonView::Integer(0),
        ).with("delta"@, JsonView::Text(delta)).with("logprobs"@, JsonView::Array(Seq::empty()))
    } else {
        chunk_view(
            info,
            JsonView::object().with("content"@, JsonView::Text(delta)),
            JsonView::Null,
        )
    }
}

/// The messages that close a stream when the backend is done.
pub open spec fn done_values(
    info: ReplyInfoView,
    include_usage: bool,
    text: Seq<char>,
    usage: JsonView,
) -> Seq<JsonView> {
    if info.responses {
        seq![
            JsonView::object().with("type"@, JsonView::Text("response.output_text.done"@)).with(
                "item_id"@,
                JsonView::Text("msg_"@ + info.id),
            ).with("output_index"@, JsonView::Integer(0)).with(
                "content_index"@,
                JsonView::Integer(0),
            ).with("text"@, JsonView::Text(text)).with(
                "logprobs"@,
                JsonView::Array(Seq::empty()),
            ),
            JsonView::object().with("type"@, JsonView::Text("response.content_part.done"@)).with(
                "item_id"@,
                JsonView::Text("msg_"@ + info.id),
            ).with("output_index"@, JsonView::Integer(0)).with(
                "content_index"@,
                JsonView::Integer(0),
            ).with("part"@, output_part_view(text)),
            JsonView::object().with("type"@, JsonView::Text("response.output_item.done"@)).with(
                "output_index"@,
                JsonView::Integer(0),
            ).with("item"@, output_item_view(info.id, text, "completed"@)),
            JsonView::object().with("type"@, JsonView::Text("response.completed"@)).with(
                "response"@,
                response_view(info, text, "completed"@, usage),
            ),
        ]
    } else if include_usage {
        seq![
            chunk_view(info, JsonView::object(), JsonView::Text("stop"@)),
            usage_chunk_view(info, usage),
        ]
    } else {
        seq![chunk_view(info, JsonView::object(), JsonView::Text("stop"@))]
    }
}

/// The message that closes a stream when the backend failed.
pub open spec fn error_value(info: ReplyInfoView, text: Seq<char>, message: Seq<char>) -> JsonView {
    if info.responses {
        JsonView::object().with("type"@, JsonView::Text("response.failed"@)).with(
            "response"@,
            response_view(info, text, "failed"@, JsonView::Null).with(
                "error"@,
                JsonView::object().with("code"@, JsonView::Text("server_error"@)).with(
                    "message"@,
                    JsonView::Text(message),
                ),
            ),
        )
    } else {
        JsonView::object().with(
            "error"@,
            JsonView::object().with("type"@, JsonView::Text("server_error"@)).with(
                "code"@,
                JsonView::Text("backend_error"@),
            ).with("message"@, JsonView::Text(message)),
        )
    }
}

/// The messages that an event of the backend adds to a stream.
pub open spec fn event_values(
    info: ReplyInfoView,
    include_usage: bool,
    text: Seq<char>,
    event: Option<EventView>,
) -> Seq<JsonView> {
    match event {
        Some(EventView::Delta(delta)) => seq![delta_value(info, delta)],
        Some(EventView::Done(usage)) => done_values(info, include_usage, text, usage),
        Some(EventView::Error(message)) => seq![error_value(info, text, message)],
        None => Seq::empty(),
    }
}

/// Whether a stream is over after an event.
pub open spec fn ends(event: Option<EventView>) -> bool {
    !(event matches Some(EventView::Delta(_)))
}

/// The frames that an event of the backend adds to a stream.
pub open spec fn event_frames(
    info: ReplyInfoView,
    include_usage: bool,
    text: Seq<char>,
    number: int,
    event: Option<EventView>,
) -> Seq<FrameView> {
    let messages = message_frames(
        event_values(info, include_usage, text, event),
        info.responses,
        number,
    );
    if !info.responses && event matches Some(EventView::Done(_)) {
        messages.push(done_frame())
    } else {
        messages
    }
}

/// An answer that is streamed.
pub struct Stream {
    pub info: ReplyInfo,
    pub include_usage: bool,
    /// The number of the next frame of a responses stream.
    pub sequence: u64,
    /// The text so far; only a responses stream repeats it.
    pub accumulated: String,
}

impl Stream {
    pub fn new(info: ReplyInfo, include_usage: bool) -> (stream: Stream)
        ensures
            stream.info@ == info@,
            stream.include_usage == include_usage,
            stream.sequence == 0,
            stream.accumulated@ == Seq::<char>::empty(),
    {
        Stream { info, include_usage, sequence: 0, accumulated: String::new() }
    }

    /// Makes the frame of a message.
    pub fn emit(&mut self, value: Json) -> (frame: Frame)
        requires
            value@ is Object,
            old(self).sequence < u64::MAX,
        ensures
            frame@ == frame_view(value@, old(self).info.responses, old(self).sequence as int),
            reads_back(frame@, value@, old(self).info.responses, old(self).sequence as int),
            one_line(frame.data@),
            final(self).sequence == old(self).sequence + if old(self).info.responses {
                1int
            } else {
                0int
            },
            final(self).info == old(self).info,
            final(self).include_usage == old(self).include_usage,
            final(self).accumulated == old(self).accumulated,
    {
        if self.info.responses {
            let name = match value.at("type").as_text() {
                Some(name) => name.to_owned(),
                None => "error".to_owned(),
            };
            let value = value.with("sequence_number", Json::Unsigned(self.sequence));
            self.sequence = self.sequence + 1;
            Frame { event: Some(name), data: value.render() }
        } else {
            Frame { event: None, data: value.render() }
        }
    }

    /// Makes the frames of messages that follow one another.
    fn emit_all(&mut self, values: Vec<Json>) -> (list: Vec<Frame>)
        requires
            old(self).sequence + values.len() <= u64::MAX,
            forall|i: int| 0 <= i < values.len() ==> (#[trigger] values[i])@ is Object,
        ensures
            list.len() == values.len(),
            forall|i: int|
                0 <= i < values.len() ==> (#[trigger] list[i])@ == frame_view(
                    values[i]@,
                    old(self).info.responses,
                    old(self).sequence + i,
                ) && reads_back(
                    list[i]@,
                    values[i]@,
                    old(self).info.responses,
                    old(self).sequence + i,
                ) && one_line(list[i].data@),
            final(self).sequence == old(self).sequence + if old(self).info.responses {
                values.len() as int
            } else {
                0int
            },
            final(self).info == old(self).info,
            final(self).include_usage == old(self).include_usage,
            final(self).accumulated == old(self).accumulated,
    {
        let mut list: Vec<Frame> = Vec::new();
        let ghost start = self.sequence;
        let ghost responses = self.info.responses;
        for value in iter: values
            invariant
                iter.seq() == values@,
                start + values.len() <= u64::MAX,
                forall|i: int| 0 <= i < values.len() ==> (#[trigger] values[i])@ is Object,
                responses == old(self).info.responses,
                start == old(self).sequence,
                self.info == old(self).info,
                self.include_usage == old(self).include_usage,
                self.accumulated == old(self).accumulated,
                self.sequence == start + if responses {
                    iter.index()
                } else {
                    0int
                },
                list.len() == iter.index(),
                forall|i: int|
                    0 <= i < iter.index() ==> (#[trigger] list[i])@ == frame_view(
                        values[i]@,
                        responses,
                        start + i,
                    ) && reads_back(list[i]@, values[i]@, responses, start + i) && one_line(
                        list[i].data@,
                    ),
        {
            assert(value == values[iter.index()]);
            let frame = self.emit(value);
            assert(frame@ == frame_view(value@, responses, start + iter.index()));
            list.push(frame);
        }
        list
    }

    /// The frames that open the stream.
    pub fn open(&mut self) -> (list: Vec<Frame>)
        requires
            old(self).sequence <= u64::MAX - 4,
        ensures
            frames(list@) == message_frames(
                opening_values(old(self).info@),
                old(self).info.responses,
                old(self).sequence as int,
            ),
            forall|i: int|
                0 <= i < opening_values(old(self).info@).len() ==> reads_back(
                    (#[trigger] list@[i])@,
                    opening_values(old(self).info@)[i],
                    old(self).info.responses,
                    old(self).sequence + i,
                ),
            forall|i: int| 0 <= i < list@.len() ==> one_line((#[trigger] list@[i]).data@),
            final(self).sequence == old(self).sequence + if old(self).info.responses {
                4int
            } else {
                0int
            },
            final(self).info == old(self).info,
            final(self).include_usage == old(self).include_usage,
            final(self).accumulated == old(self).accumulated,
    {
        let mut values: Vec<Json> = Vec::new();
        if self.info.responses {
            let item_id = joined("msg_", self.info.id.as_str());
            values.push(
                Json::object().with("type", Json::text("response.created")).with(
                    "response",
                    response_object(&self.info, "", "in_progress", &Json::Null),
                ),
            );
            values.push(
                Json::object().with("type", Json::text("response.in_progress")).with(
                    "response",
                    response_object(&self.info, "", "in_progress", &Json::Null),
                ),
            );
            values.push(
                Json::object().with("type", Json::text("response.output_item.added")).with(
                    "output_index",
                    Json::Unsigned(0),
                ).with(
                    "item",
                    Json::object().with("id", Json::text(item_id.as_str())).with(
                        "type",
                        Json::text("message"),
                    ).with("role", Json::text("assistant")).with(
                        "status",
                        Json::text("in_progress"),
                    ).with("content", empty_array()),
                ),
            );
            values.push(
                Json::object().with("type", Json::text("response.content_part.added")).with(
                    "item_id",
                    Json::text(item_id.as_str()),
                ).with("output_index", Json::Unsigned(0)).with(
                    "content_index",
                    Json::Unsigned(0),
                ).with(
                    "part",
                    Json::object().with("type", Json::text("output_text")).with(
                        "text",
                        Json::text(""),
                    ).with("annotations", empty_array()),
                ),
            );
        } else {
            values.push(
                chunk(
                    &self.info,
                    Json::object().with("role", Json::text("assistant")).with(
                        "content",
                        Json::text(""),
                    ),
                    Json::Null,
                ),
            );
        }
        proof {
            reveal_strlit("");
            assert(""@ == Seq::<char>::empty());
        }
        let ghost stated = opening_values(self.info@);
        assert(values.len() == stated.len());
        assert(forall|i: int| 0 <= i < values.len() ==> (#[trigger] values[i])@ == stated[i]);
        let list = self.emit_all(values);
        assert(frames(list@) =~= message_frames(
            stated,
            old(self).info.responses,
            old(self).sequence as int,
        ));
        list
    }

    /// Takes an event of the backend, or the end of the events; says whether the
    /// stream is over.
    pub fn receive(&mut self, event: Option<GenerationEvent>) -> (result: (Vec<Frame>, bool))
        requires
            old(self).sequence <= u64::MAX - 4,
        ensures
            frames(result.0@) == event_frames(
                old(self).info@,
                old(self).include_usage,
                old(self).accumulated@,
                old(self).sequence as int,
                event_view(event),
            ),
            ({
                let values = event_values(
                    old(self).info@,
                    old(self).include_usage,
                    old(self).accumulated@,
                    event_view(event),
                );
                forall|i: int|
                    0 <= i < values.len() ==> reads_back(
                        (#[trigger] result.0@[i])@,
                        values[i],
                        old(self).info.responses,
                        old(self).sequence + i,
                    )
            }),
            forall|i: int| 0 <= i < result.0@.len() ==> one_line((#[trigger] result.0@[i]).data@),
            result.1 == ends(event_view(event)),
            final(self).sequence == old(self).sequence + if old(self).info.responses {
                result.0@.len() as int
            } else {
                0int
            },
            final(self).info == old(self).info,
            final(self).include_usage == old(self).include_usage,
            final(self).accumulated@ == if old(self).info.responses {
                text_after(old(self).accumulated@, event_view(event))
            } else {
                old(self).accumulated@
            },
    {
        let ghost text = self.accumulated@;
        let ghost stated = event_values(self.info@, self.include_usage, text, event_view(event));
        let mut values: Vec<Json> = Vec::new();
        let mut marker = false;
        let mut over = true;
        match event {
            Some(GenerationEvent::Delta(delta)) => {
                over = false;
                values.push(self.delta_message(delta.as_str()));
                if self.info.responses {
                    self.accumulated.append(delta.as_str());
                }
            },
            Some(GenerationEvent::Done(usage)) => {
                if self.info.responses {
                    values = self.completed_messages(&usage);
                } else {
                    values.push(chunk(&self.info, Json::object(), Json::text("stop")));
                    if self.include_usage {
                        values.push(usage_chunk(&self.info, &usage));
                    }
                    marker = true;
                }
            },
            Some(GenerationEvent::Error(message)) => {
                values.push(self.error_message(message.as_str()));
            },
            None => {},
        }
        assert(values.len() == stated.len());
        assert(forall|i: int| 0 <= i < values.len() ==> (#[trigger] values[i])@ == stated[i]);
        let mut list = self.emit_all(values);
        let ghost messages = message_frames(
            stated,
            old(self).info.responses,
            old(self).sequence as int,
        );
        assert(frames(list@) =~= messages);
        if marker {
            let ghost before = list@;
            list.push(Frame { event: None, data: "[DONE]".to_owned() });
            proof {
                reveal_strlit("[DONE]");
            }
            assert(frames(list@) =~= frames(before).push(done_frame()));
        }
        (list, over)
    }

    fn delta_message(&self, delta: &str) -> (value: Json)
        ensures
            value@ == delta_value(self.info@, delta@),
            value@ is Object,
    {
        if self.info.responses {
            Json::object().with("type", Json::text("response.output_text.delta")).with(
                "item_id",
                Json::Text(joined("msg_", self.info.id.as_str())),
            ).with("output_index", Json::Unsigned(0)).with(
                "content_index",
                Json::Unsigned(0),
            ).with("delta", Json::text(delta)).with("logprobs", empty_array())
        } else {
            chunk(&self.info, Json::object().with("content", Json::text(delta)), Json::Null)
        }
    }

    fn completed_messages(&self, usage: &Json) -> (values: Vec<Json>)
        requires
            self.info.responses,
        ensures
            values.len() == 4,
            forall|i: int|
                0 <= i < 4 ==> (#[trigger] values[i])@ == done_values(
                    self.info@,
                    self.include_usage,
                    self.accumulated@,
                    usage@,
                )[i],
            forall|i: int| 0 <= i < 4 ==> (#[trigger] values[i])@ is Object,
    {
        let text = self.accumulated.as_str();
        let item_id = joined("msg_", self.info.id.as_str());
        let mut values: Vec<Json> = Vec::new();
        values.push(
            Json::object().with("type", Json::text("response.output_text.done")).with(
                "item_id",
                Json::text(item_id.as_str()),
            ).with("output_index", Json::Unsigned(0)).with(
                "content_index",
                Json::Unsigned(0),
            ).with("text", Json::text(text)).with("logprobs", empty_array()),
        );
        values.push(
            Json::object().with("type", Json::text("response.content_part.done")).with(
                "item_id",
                Json::text(item_id.as_str()),
            ).with("output_index", Json::Unsigned(0)).with(
                "content_index",
                Json::Unsigned(0),
            ).with("part", output_part(text)),
        );
        values.push(
            Json::object().with("type", Json::text("response.output_item.done")).with(
                "output_index",
                Json::Unsigned(0),
            ).with("item", output_item(self.info.id.as_str(), text, "completed")),
        );
        values.push(
            Json::object().with("type", Json::text("response.completed")).with(
                "response",
                response_object(&self.info, text, "completed", usage),
            ),
        );
        values
    }

    fn error_message(&self, message: &str) -> (value: Json)
        ensures
            value@ == error_value(self.info@, self.accumulated@, message@),
            value@ is Object,
    {
        if self.info.responses {
            let failed = response_object(
                &self.info,
                self.accumulated.as_str(),
                "failed",
                &Json::Null,
            );
            Json::object().with("type", Json::text("response.failed")).with(
                "response",
                failed.with(
                    "error",
                    Json::object().with("code", Json::text("server_error")).with(
                        "message",
                        Json::text(message),
                    ),
                ),
            )
        } else {
            Json::object().with(
                "error",
                Json::object().with("type", Json::text("server_error")).with(
                    "code",
                    Json::text("backend_error"),
                ).with("message", Json::text(message)),
            )
        }
    }
}

// ---------------------------------------------------------------------------
// Whole answers

/// Pieces of text one after the other.
pub open spec fn said(deltas: Seq<Seq<char>>) -> Seq<char>
    decreases deltas.len(),
{
    if deltas.len() == 0 {
        Seq::empty()
    } else {
        said(deltas.drop_last()) + deltas.last()
    }
}

/// The events of a backend that sends these pieces of text.
pub open spec fn delta_events(deltas: Seq<Seq<char>>) -> Seq<Option<EventView>> {
    deltas.map_values(|delta: Seq<char>| Some(EventView::Delta(delta)))
}

/// The text that is collected from events.
pub open spec fn collected(events: Seq<Option<EventView>>) -> Seq<char>
    decreases events.len(),
{
    if events.len() == 0 {
        Seq::empty()
    } else {
        text_after(collected(events.drop_last()), events.last())
    }
}

/// A stream after some events: what was sent, the next number, the text so far.
#[verifier::ext_equal]
pub struct StreamRun {
    pub frames: Seq<FrameView>,
    pub number: int,
    pub text: Seq<char>,
}

/// A stream after these events.
pub open spec fn stream_run(
    info: ReplyInfoView,
    include_usage: bool,
    events: Seq<Option<EventView>>,
) -> StreamRun
    decreases events.len(),
{
    if events.len() == 0 {
        let opening = message_frames(opening_values(info), info.responses, 0);
        StreamRun {
            frames: opening,
            number: if info.responses {
                opening.len() as int
            } else {
                0
            },
            text: Seq::empty(),
        }
    } else {
        let earlier = stream_run(info, include_usage, events.drop_last());
        let more = event_frames(info, include_usage, earlier.text, earlier.number, events.last());
        StreamRun {
            frames: earlier.frames + more,
            number: earlier.number + if info.responses {
                more.len() as int
            } else {
                0
            },
            text: if info.responses {
                text_after(earlier.text, events.last())
            } else {
                earlier.text
            },
        }
    }
}

/// An answer that is not streamed holds every piece of text, in order, and the tokens
/// that the backend reported last.
pub proof fn law_answer_holds_all_text(
    info: ReplyInfoView,
    deltas: Seq<Seq<char>>,
    usage: JsonView,
)
    ensures
        collected(delta_events(deltas)) == said(deltas),
        answer_of(info, collected(delta_events(deltas)), Some(EventView::Done(usage))) == Some(
            Ok::<JsonView, ApiErrorView>(reply_view(info, said(deltas), usage)),
        ),
    decreases deltas.len(),
{
    if deltas.len() > 0 {
        law_answer_holds_all_text(info, deltas.drop_last(), usage);
        assert(delta_events(deltas).drop_last() == delta_events(deltas.drop_last()));
    }
}

/// A frame of a responses stream whose message carries this number.
pub open spec fn has_number(frame: FrameView, number: int) -> bool {
    exists|value: JsonView| frame == #[trigger] frame_view(value, true, number)
}

/// The frames of a responses stream are numbered from zero without a gap.
pub proof fn law_responses_frames_are_numbered(
    info: ReplyInfoView,
    include_usage: bool,
    events: Seq<Option<EventView>>,
)
    requires
        info.responses,
    ensures
        stream_run(info, include_usage, events).number == stream_run(
            info,
            include_usage,
            events,
        ).frames.len(),
        forall|i: int|
            0 <= i < stream_run(info, include_usage, events).frames.len() ==> has_number(
                #[trigger] stream_run(info, include_usage, events).frames[i],
                i,
            ),
    decreases events.len(),
{
    let run = stream_run(info, include_usage, events);
    if events.len() == 0 {
        assert forall|i: int| 0 <= i < run.frames.len() implies has_number(
            #[trigger] run.frames[i],
            i,
        ) by {
            assert(run.frames[i] == frame_view(opening_values(info)[i], true, 0 + i));
        }
    } else {
        law_responses_frames_are_numbered(info, include_usage, events.drop_last());
        let earlier = stream_run(info, include_usage, events.drop_last());
        let values = event_values(info, include_usage, earlier.text, events.last());
        let more = event_frames(info, include_usage, earlier.text, earlier.number, events.last());
        assert forall|i: int| 0 <= i < run.frames.len() implies has_number(
            #[trigger] run.frames[i],
            i,
        ) by {
            if i < earlier.frames.len() {
                assert(run.frames[i] == earlier.frames[i]);
            } else {
                let k = i - earlier.frames.len();
                assert(run.frames[i] == more[k]);
                assert(more[k] == frame_view(values[k], true, earlier.number + k));
            }
        }
    }
}

proof fn lemma_stream_of_deltas(info: ReplyInfoView, include_usage: bool, deltas: Seq<Seq<char>>)
    ensures
        ({
            let run = stream_run(info, include_usage, delta_events(deltas));
            let start = opening_values(info).len();
            &&& run.frames.len() == start + deltas.len()
            &&& forall|i: int|
                0 <= i < deltas.len() ==> #[trigger] run.frames[start + i] == frame_view(
                    delta_value(info, deltas[i]),
                    info.responses,
                    if info.responses {
                        start + i
                    } else {
                        0
                    },
                )
            &&& info.responses ==> run.text == said(deltas)
            &&& run.number == if info.responses {
                run.frames.len() as int
            } else {
                0
            }
        }),
    decreases deltas.len(),
{
    let start = opening_values(info).len();
    if deltas.len() > 0 {
        let earlier_deltas = deltas.drop_last();
        lemma_stream_of_deltas(info, include_usage, earlier_deltas);
        assert(delta_events(deltas).drop_last() == delta_events(earlier_deltas));
        let earlier = stream_run(info, include_usage, delta_events(earlier_deltas));
        let run = stream_run(info, include_usage, delta_events(deltas));
        assert forall|i: int| 0 <= i < deltas.len() implies #[trigger] run.frames[start + i]
            == frame_view(
            delta_value(info, deltas[i]),
            info.responses,
            if info.responses {
                start + i
            } else {
                0
            },
        ) by {
            if i < earlier_deltas.len() {
                assert(run.frames[start + i] == earlier.frames[start + i]);
                assert(deltas[i] == earlier_deltas[i]);
            }
        }
    }
}

/// A stream sends one frame for each piece of text, in order, between the frames that
/// open it and those that close it.
pub proof fn law_stream_sends_every_delta(
    info: ReplyInfoView,
    include_usage: bool,
    deltas: Seq<Seq<char>>,
    last: Option<EventView>,
    i: int,
)
    requires
        0 <= i < deltas.len(),
    ensures
        ({
            let start = opening_values(info).len();
            stream_run(info, include_usage, delta_events(deltas).push(last)).frames[start + i]
                == frame_view(
                delta_value(info, deltas[i]),
                info.responses,
                if info.responses {
                    start + i
                } else {
                    0
                },
            )
        }),
{
    lemma_stream_of_deltas(info, include_usage, deltas);
    assert(delta_events(deltas).push(last).drop_last() == delta_events(deltas));
}

/// A responses stream ends with the very answer that the request would get unstreamed.
pub proof fn law_stream_completes_with_the_answer(
    info: ReplyInfoView,
    include_usage: bool,
    deltas: Seq<Seq<char>>,
    usage: JsonView,
)
    requires
        info.responses,
    ensures
        ({
            let run = stream_run(
                info,
                include_usage,
                delta_events(deltas).push(Some(EventView::Done(usage))),
            );
            let answer = answer_of(
                info,
                collected(delta_events(deltas)),
                Some(EventView::Done(usage)),
            );
            &&& answer matches Some(Ok(body)) && run.frames.last() == frame_view(
                JsonView::object().with("type"@, JsonView::Text("response.completed"@)).with(
                    "response"@,
                    body,
                ),
                true,
                run.frames.len() - 1,
            )
        }),
{
    let done = Some(EventView::Done(usage));
    lemma_stream_of_deltas(info, include_usage, deltas);
    law_answer_holds_all_text(info, deltas, usage);
    assert(delta_events(deltas).push(done).drop_last() == delta_events(deltas));
    let earlier = stream_run(info, include_usage, delta_events(deltas));
    let more = event_frames(info, include_usage, earlier.text, earlier.number, done);
    assert(more.len() == 4);
    let run = stream_run(info, include_usage, delta_events(deltas).push(done));
    assert(run.frames.last() == more[3]);
}

/// A chat stream that the backend completes ends with the `[DONE]` frame, before it
/// stands the report of the tokens used where it was asked for.
pub proof fn law_chat_stream_ends_with_marker(
    info: ReplyInfoView,
    include_usage: bool,
    events: Seq<Option<EventView>>,
    usage: JsonView,
)
    requires
        !info.responses,
    ensures
        ({
            let run = stream_run(info, include_usage, events.push(Some(EventView::Done(usage))));
            let n = run.frames.len();
            &&& run.frames.last() == done_frame()
            &&& include_usage ==> run.frames[n - 2] == frame_view(
                usage_chunk_view(info, usage),
                false,
                0,
            )
        }),
{
    let done = Some(EventView::Done(usage));
    assert(events.push(done).drop_last() == events);
    let earlier = stream_run(info, include_usage, events);
    let more = event_frames(info, include_usage, earlier.text, earlier.number, done);
    let run = stream_run(info, include_usage, events.push(done));
    assert(run.frames.last() == more.last());
    if include_usage {
        assert(more.len() == 3);
        assert(run.frames[run.frames.len() - 2] == more[1]);
        assert(more[1] == frame_view(usage_chunk_view(info, usage), false, earlier.number + 1));
    }
}

/// A backend that fails is never answered as a success: the request is refused with
/// 504 after a timeout and with 502 otherwise, and a stream closes with the error.
pub proof fn law_failure_is_reported(
    info: ReplyInfoView,
    include_usage: bool,
    events: Seq<Option<EventView>>,
    message: Seq<char>,
)
    ensures
        answer_of(info, collected(events), Some(EventView::Error(message))) == Some(
            Err::<JsonView, ApiErrorView>(backend_error(message)),
        ),
        backend_error(message).status == 504 || backend_error(message).status == 502,
        backend_error(message).status == 504 <==> contains(message, "timed out"@),
        ({
            let earlier = stream_run(info, include_usage, events);
            let run = stream_run(
                info,
                include_usage,
                events.push(Some(EventView::Error(message))),
            );
            run.frames == earlier.frames.push(
                frame_view(
                    error_value(info, earlier.text, message),
                    info.responses,
                    earlier.number,
                ),
            )
        }),
{
    assert(events.push(Some(EventView::Error(message))).drop_last() == events);
    let earlier = stream_run(info, include_usage, events);
    let run = stream_run(info, include_usage, events.push(Some(EventView::Error(message))));
    assert(run.frames =~= earlier.frames.push(
        frame_view(error_value(info, earlier.text, message), info.responses, earlier.number),
    ));
}

/// How the work on an answer ended.
pub enum Ending {
    /// The answer is complete.
    Complete,
    /// The backend failed.
    Failed(Failure),
    /// The gateway is told to stop.
    Stopping,
    /// The request took too long.
    TimedOut,
}

/// What is reported when the work ends: nothing where the answer is complete.
pub open spec fn ending_of(ending: Ending) -> Option<EventView> {
    match ending {
        Ending::Complete => None,
        Ending::Failed(failure) => Some(EventView::Error(failure@)),
        Ending::Stopping => Some(EventView::Error("Proxy is stopping"@)),
        Ending::TimedOut => Some(EventView::Error("Codex request timed out"@)),
    }
}

/// What is reported when the work on an answer ends.
pub fn last_event(ending: Ending) -> (event: Option<GenerationEvent>)
    ensures
        event_view(event) == ending_of(ending),
{
    match ending {
        Ending::Complete => None,
        Ending::Failed(failure) => Some(GenerationEvent::Error(failure.message)),
        Ending::Stopping => Some(GenerationEvent::Error("Proxy is stopping".to_owned())),
        Ending::TimedOut => Some(GenerationEvent::Error("Codex request timed out".to_owned())),
    }
}

/// A request that took too long is answered with 504, one that the gateway cut off when
/// it stopped with 502.
pub proof fn law_timeout_is_answered_as_one(info: ReplyInfoView, text: Seq<char>)
    ensures
        answer_of(info, text, ending_of(Ending::TimedOut)) == Some(
            Err::<JsonView, ApiErrorView>(
                ApiErrorView { status: 504, message: "Codex request timed out"@ },
            ),
        ),
        answer_of(info, text, ending_of(Ending::Stopping)) == Some(
            Err::<JsonView, ApiErrorView>(
                ApiErrorView { status: 502, message: "Proxy is stopping"@ },
            ),
        ),
{
    reveal_strlit("Codex request timed out");
    reveal_strlit("Proxy is stopping");
    reveal_strlit("timed out");
    let message = "Codex request timed out"@;
    let part = "timed out"@;
    assert(message.subrange(14, 23) =~= part);
    assert(stands_at(message, part, 14));
    let other = "Proxy is stopping"@;
    assert forall|i: int| !stands_at(other, part, i) by {
        if stands_at(other, part, i) {
            assert(other.subrange(i, i + 9)[4] == part[4]);
            assert(other[i + 4] == 'd');
        }
    }
}

/// The events that actions report.
pub open spec fn reported_events(actions: Seq<ActionView>) -> Seq<Option<EventView>>
    decreases actions.len(),
{
    if actions.len() == 0 {
        Seq::empty()
    } else if actions.last() is Emit {
        reported_events(actions.drop_last()).push(Some(actions.last()->Emit_0))
    } else {
        reported_events(actions.drop_last())
    }
}

/// A turn that the app-server completes is answered with all the text that was reported
/// in it, and with the tokens that were reported last in it.
pub proof fn law_completed_turn_is_answered(
    info: ReplyInfoView,
    state: BackendView,
    completed: JsonView,
)
    requires
        state.stage == StageView::Answer(JsonView::Null, Set::empty()),
        caught_up(state).state.stage is Answer,
        completed.at("method"@) == JsonView::Text("turn/completed"@),
        completed.at("params"@).at("turn"@).at("status"@) == JsonView::Text("completed"@),
    ensures
        ({
            let earlier = reported_events(caught_up(state).actions);
            let events = reported_events(
                caught_up(BackendView { pending: state.pending.push(completed), ..state }).actions,
            );
            let usage = reported_usage(JsonView::Null, state.pending);
            &&& events == earlier.push(Some(EventView::Done(usage)))
            &&& answer_of(info, collected(earlier), events.last()) == Some(
                Ok::<JsonView, ApiErrorView>(reply_view(info, collected(earlier), usage)),
            )
        }),
{
    law_usage_is_as_reported(state, completed);
    let before = caught_up(state).actions;
    let usage = reported_usage(JsonView::Null, state.pending);
    let done = ActionView::Emit(EventView::Done(usage));
    let actions = before + seq![done, ActionView::Complete];
    assert(actions.drop_last() =~= before.push(done));
    assert(before.push(done).drop_last() =~= before);
    assert(actions.last() == ActionView::Complete);
    assert(reported_events(before.push(done)) == reported_events(before).push(
        Some(EventView::Done(usage)),
    ));
}

// ---------------------------------------------------------------------------
// What the messages of a stream hold

/// The new text that a message of a stream holds.
pub open spec fn message_text(message: JsonView, responses: bool) -> JsonView {
    if responses {
        message.at("delta"@)
    } else {
        message.at("choices"@).item(0).at("delta"@).at("content"@)
    }
}

/// The message that a stream sends for a piece of text holds that text as it is, whatever
/// it is, and does not end the answer.
pub proof fn law_delta_message_holds_the_text(info: ReplyInfoView, delta: Seq<char>)
    ensures
        message_text(delta_value(info, delta), info.responses) == JsonView::Text(delta),
        info.responses ==> delta_value(info, delta).at("type"@) == JsonView::Text(
            "response.output_text.delta"@,
        ) && delta_value(info, delta).at("item_id"@) == JsonView::Text("msg_"@ + info.id),
        !info.responses ==> delta_value(info, delta).at("choices"@).item(0).at("finish_reason"@)
            == JsonView::Null && delta_value(info, delta).at("id"@) == JsonView::Text(info.id),
{
    lemma_names();
}

/// A frame is the text of its message. In a responses stream the message gains its number
/// and changes in nothing else, and the frame is named by the message's type; in a chat
/// stream the message is as it was and the frame has no name.
pub proof fn law_frame_is_its_message(
    value: JsonView,
    number: int,
    kind: Seq<char>,
    member: Seq<char>,
)
    requires
        value is Object,
        value.at("type"@) == JsonView::Text(kind),
        member != "sequence_number"@,
    ensures
        frame_view(value, false, number).data == json_text(value),
        frame_view(value, false, number).event is None,
        frame_view(value, true, number).data == json_text(sent(value, true, number)),
        frame_view(value, true, number).event == Some(kind),
        sent(value, true, number).at("sequence_number"@) == JsonView::Integer(number),
        sent(value, true, number).field(member) == value.field(member),
        sent(value, false, number) == value,
{
}

/// Whether the message of a frame holds this new text.
pub open spec fn carries_text(frame: FrameView, responses: bool, text: Seq<char>) -> bool {
    exists|message: JsonView|
        frame.data == #[trigger] json_text(message) && message_text(message, responses)
            == JsonView::Text(text)
}

/// Pieces of text put together lose nothing and gain nothing.
pub proof fn law_pieces_are_put_together(
    left: Seq<Seq<char>>,
    right: Seq<Seq<char>>,
    piece: Seq<char>,
)
    ensures
        said(seq![piece]) == piece,
        said(left + right) == said(left) + said(right),
        said(Seq::<Seq<char>>::empty()).len() == 0,
    decreases right.len(),
{
    assert(seq![piece].drop_last() =~= Seq::<Seq<char>>::empty());
    assert(said(seq![piece].drop_last()) =~= Seq::<char>::empty());
    assert(said(seq![piece]) =~= piece);
    if right.len() == 0 {
        assert(left + right =~= left);
        assert(said(left) + said(right) =~= said(left));
    } else {
        law_pieces_are_put_together(left, right.drop_last(), piece);
        assert((left + right).drop_last() =~= left + right.drop_last());
        assert((left + right).last() == right.last());
        assert(said(left) + said(right.drop_last()) + right.last() =~= said(left) + said(right));
    }
}

/// The text that is collected grows by every piece as it came, and by nothing else.
pub proof fn law_collected_text_grows_by_each_piece(
    events: Seq<Option<EventView>>,
    delta: Seq<char>,
    usage: JsonView,
    message: Seq<char>,
)
    ensures
        collected(Seq::<Option<EventView>>::empty()).len() == 0,
        collected(events.push(Some(EventView::Delta(delta)))) == collected(events) + delta,
        collected(events.push(Some(EventView::Done(usage)))) == collected(events),
        collected(events.push(Some(EventView::Error(message)))) == collected(events),
        collected(events.push(None)) == collected(events),
{
    assert(events.push(Some(EventView::Delta(delta))).drop_last() =~= events);
    assert(events.push(Some(EventView::Done(usage))).drop_last() =~= events);
    assert(events.push(Some(EventView::Error(message))).drop_last() =~= events);
    assert(events.push(None).drop_last() =~= events);
}

/// Streamed or not, the client gets the same text: the frames of a stream hold the pieces
/// as the backend reported them, one frame for each and in order, and the answer that is
/// not streamed holds the same pieces put together.
pub proof fn law_streamed_text_is_the_answer(
    info: ReplyInfoView,
    include_usage: bool,
    deltas: Seq<Seq<char>>,
    usage: JsonView,
)
    ensures
        ({
            let run = stream_run(info, include_usage, delta_events(deltas));
            let start = if info.responses {
                4int
            } else {
                1int
            };
            &&& run.frames.len() == start + deltas.len()
            &&& forall|i: int|
                0 <= i < deltas.len() ==> carries_text(
                    #[trigger] run.frames[start + i],
                    info.responses,
                    deltas[i],
                )
        }),
        ({
            let answer = answer_of(
                info,
                collected(delta_events(deltas)),
                Some(EventView::Done(usage)),
            );
            &&& answer is Some && answer->0 is Ok
            &&& info.responses ==> answer->0->Ok_0.at("output"@).item(0).at("content"@).item(0).at(
                "text"@,
            ) == JsonView::Text(said(deltas))
            &&& !info.responses ==> answer->0->Ok_0.at("choices"@).item(0).at("message"@).at(
                "content"@,
            ) == JsonView::Text(said(deltas))
        }),
{
    lemma_names();
    lemma_stream_of_deltas(info, include_usage, deltas);
    law_answer_holds_all_text(info, deltas, usage);
    law_whole_answer_holds_the_text(info, said(deltas), usage, said(deltas));
    let run = stream_run(info, include_usage, delta_events(deltas));
    let start = opening_values(info).len();
    assert forall|i: int| 0 <= i < deltas.len() implies carries_text(
        #[trigger] run.frames[start + i],
        info.responses,
        deltas[i],
    ) by {
        let number = if info.responses {
            start + i
        } else {
            0
        };
        let value = delta_value(info, deltas[i]);
        law_delta_message_holds_the_text(info, deltas[i]);
        let message = sent(value, info.responses, number);
        assert(message_text(message, info.responses) == JsonView::Text(deltas[i]));
        assert(run.frames[start + i].data == json_text(message));
    }
}

/// A stream opens with the announcement of the answer: nothing of its text is in it.
pub proof fn law_stream_opens_without_text(info: ReplyInfoView)
    ensures
        ({
            let values = opening_values(info);
            &&& !info.responses ==> {
                &&& values.len() == 1
                &&& values[0].at("choices"@).item(0).at("delta"@).at("role"@) == JsonView::Text(
                    "assistant"@,
                )
                &&& values[0].at("choices"@).item(0).at("delta"@).at("content"@)
                    == JsonView::Text(""@)
                &&& values[0].at("choices"@).item(0).at("finish_reason"@) == JsonView::Null
                &&& values[0].at("id"@) == JsonView::Text(info.id)
            }
            &&& info.responses ==> {
                &&& values.len() == 4
                &&& values[0].at("type"@) == JsonView::Text("response.created"@)
                &&& values[1].at("type"@) == JsonView::Text("response.in_progress"@)
                &&& values[2].at("type"@) == JsonView::Text("response.output_item.added"@)
                &&& values[3].at("type"@) == JsonView::Text("response.content_part.added"@)
                &&& values[0].at("response"@).at("status"@) == JsonView::Text("in_progress"@)
                &&& values[0].at("response"@).at("id"@) == JsonView::Text(info.id)
                &&& values[0].at("response"@).at("output"@).count() == 0
                &&& values[1].at("response"@) == values[0].at("response"@)
                &&& values[2].at("item"@).at("id"@) == JsonView::Text("msg_"@ + info.id)
                &&& values[2].at("item"@).at("status"@) == JsonView::Text("in_progress"@)
                &&& values[2].at("item"@).at("content"@).count() == 0
                &&& values[3].at("item_id"@) == JsonView::Text("msg_"@ + info.id)
                &&& values[3].at("part"@).at("text"@) == JsonView::Text(""@)
            }
        }),
{
    lemma_names();
}

/// A responses stream that is complete repeats the whole text in each of its last messages,
/// as it is; a chat stream repeats none of it, says why it ended, and reports the tokens
/// only where that was asked for.
pub proof fn law_stream_closes_with_the_text(
    info: ReplyInfoView,
    include_usage: bool,
    text: Seq<char>,
    usage: JsonView,
)
    ensures
        ({
            let values = event_values(info, include_usage, text, Some(EventView::Done(usage)));
            &&& info.responses ==> {
                let response = values[3].at("response"@);
                &&& values.len() == 4
                &&& values[0].at("type"@) == JsonView::Text("response.output_text.done"@)
                &&& values[0].at("text"@) == JsonView::Text(text)
                &&& values[1].at("type"@) == JsonView::Text("response.content_part.done"@)
                &&& values[1].at("part"@).at("text"@) == JsonView::Text(text)
                &&& values[2].at("type"@) == JsonView::Text("response.output_item.done"@)
                &&& values[2].at("item"@).at("content"@).item(0).at("text"@) == JsonView::Text(text)
                &&& values[2].at("item"@).at("status"@) == JsonView::Text("completed"@)
                &&& values[3].at("type"@) == JsonView::Text("response.completed"@)
                &&& response.at("output"@).item(0) == values[2].at("item"@)
                &&& response.at("status"@) == JsonView::Text("completed"@)
                &&& (response.at("usage"@) == JsonView::Null <==> usage == JsonView::Null)
                &&& usage != JsonView::Null ==> response.at("usage"@).at("total_tokens"@)
                    == usage.at("totalTokens"@)
                &&& values[0].at("item_id"@) == JsonView::Text("msg_"@ + info.id)
                &&& values[1].at("item_id"@) == JsonView::Text("msg_"@ + info.id)
                &&& values[2].at("item"@).at("id"@) == JsonView::Text("msg_"@ + info.id)
            }
            &&& !info.responses ==> {
                &&& values.len() == if include_usage {
                    2nat
                } else {
                    1nat
                }
                &&& values[0].at("choices"@).item(0).at("finish_reason"@) == JsonView::Text("stop"@)
                &&& values[0].at("choices"@).item(0).at("delta"@) == JsonView::object()
                &&& include_usage ==> values[1] == usage_chunk_view(info, usage)
            }
        }),
{
    lemma_names();
    reveal_strlit("completed");
    reveal_strlit("in_progress");
    assert("completed"@.len() == 9 && "in_progress"@.len() == 11);
    law_usage_is_passed_on(info, text, usage);
}

/// Every piece of text is one message and leaves the stream open; an error is one message,
/// which holds what went wrong as it is, and closes the stream, as the end of the events
/// does without a message.
pub proof fn law_event_has_its_messages(
    info: ReplyInfoView,
    include_usage: bool,
    text: Seq<char>,
    delta: Seq<char>,
    message: Seq<char>,
    usage: JsonView,
)
    ensures
        event_values(info, include_usage, text, Some(EventView::Delta(delta))).len() == 1,
        message_text(
            event_values(info, include_usage, text, Some(EventView::Delta(delta)))[0],
            info.responses,
        ) == JsonView::Text(delta),
        event_values(info, include_usage, text, None).len() == 0,
        !ends(Some(EventView::Delta(delta))),
        ends(Some(EventView::Done(usage))),
        ends(Some(EventView::Error(message))),
        ends(None),
        ({
            let values = event_values(info, include_usage, text, Some(EventView::Error(message)));
            let response = values[0].at("response"@);
            &&& values.len() == 1
            &&& !info.responses ==> values[0].at("error"@).at("message"@) == JsonView::Text(message)
            &&& info.responses ==> values[0].at("type"@) == JsonView::Text("response.failed"@)
                && response.at("error"@).at("message"@) == JsonView::Text(message) && response.at(
                "status"@,
            ) == JsonView::Text("failed"@) && response.at("output"@).item(0).at("content"@).item(
                0,
            ).at("text"@) == JsonView::Text(text)
        }),
{
    lemma_names();
    reveal_strlit("failed");
    reveal_strlit("in_progress");
    assert("failed"@.len() == 6 && "in_progress"@.len() == 11);
    law_delta_message_holds_the_text(info, delta);
}

/// Messages become as many frames, in order, each with the next number.
pub proof fn law_messages_become_frames(values: Seq<JsonView>, responses: bool, number: int, i: int)
    requires
        0 <= i < values.len(),
    ensures
        message_frames(values, responses, number).len() == values.len(),
        message_frames(values, responses, number)[i].data == json_text(
            if responses {
                values[i].with("sequence_number"@, JsonView::Integer(number + i))
            } else {
                values[i]
            },
        ),
{
}

/// A failure is told as it is, to clients that stream and to those that do not: what went
/// wrong is not cut, and only a timeout is answered as one.
pub proof fn law_failure_is_told_as_it_is(
    info: ReplyInfoView,
    text: Seq<char>,
    failure: Failure,
    before: Seq<char>,
    after: Seq<char>,
    delta: Seq<char>,
)
    ensures
        ending_of(Ending::Failed(failure)) == Some(EventView::Error(failure@)),
        ending_of(Ending::Complete) is None,
        ({
            let answer = answer_of(info, text, ending_of(Ending::Failed(failure)));
            &&& answer is Some && answer->0 is Err
            &&& answer->0->Err_0.message == failure@
            &&& failure@ == before + "timed out"@ + after ==> answer->0->Err_0.status == 504
            &&& !contains(failure@, "timed out"@) ==> answer->0->Err_0.status == 502
        }),
        answer_of(info, text, Some(EventView::Delta(delta))) is None,
        answer_of(info, text, None) is Some && answer_of(info, text, None)->0 is Err
            && answer_of(info, text, None)->0->Err_0.status == 502,
{
    if failure@ == before + "timed out"@ + after {
        assert(failure@.subrange(before.len() as int, (before.len() + "timed out"@.len()) as int)
            =~= "timed out"@);
        assert(stands_at(failure@, "timed out"@, before.len() as int));
    }
}

/// The texts of the deltas among some messages, put together as they came.
pub open spec fn delta_text(messages: Seq<JsonView>) -> Seq<char>
    decreases messages.len(),
{
    if messages.len() == 0 {
        Seq::empty()
    } else if is_delta(messages.last()) && messages.last().at("params"@).at("delta"@) is Text {
        delta_text(messages.drop_last()) + messages.last().at("params"@).at("delta"@)->Text_0
    } else {
        delta_text(messages.drop_last())
    }
}

/// Whether the item that ends with this message had a delta before.
pub open spec fn had_delta(messages: Seq<JsonView>, i: int) -> bool {
    exists|j: int|
        0 <= j < i && is_delta(#[trigger] messages[j]) && name_of(
            messages[j].at("params"@).at("itemId"@),
        ) == name_of(messages[i].at("params"@).at("item"@).at("id"@))
}

proof fn lemma_deltas_are_remembered(state: BackendView)
    requires
        state.stage is Answer,
        caught_up(state).state.stage is Answer,
    ensures
        forall|j: int|
            0 <= j < state.pending.len() && is_delta(#[trigger] state.pending[j])
                ==> caught_up(state).state.stage->Answer_1.contains(
                name_of(state.pending[j].at("params"@).at("itemId"@)),
            ),
    decreases state.pending.len(),
{
    if state.pending.len() > 0 {
        let message = state.pending.last();
        let less = BackendView { pending: state.pending.drop_last(), ..state };
        assert(less.pending.push(message) =~= state.pending);
        if !(caught_up(less).state.stage is Answer) {
            lemma_caught_up_stops(less, message);
        } else {
            lemma_caught_up_push(less, message);
            lemma_deltas_are_remembered(less);
            let earlier = caught_up(less).state.stage;
            law_item_text_is_reported_once(earlier->Answer_0, earlier->Answer_1, message);
            assert forall|j: int|
                0 <= j < state.pending.len() && is_delta(
                    #[trigger] state.pending[j],
                ) implies caught_up(state).state.stage->Answer_1.contains(
                name_of(state.pending[j].at("params"@).at("itemId"@)),
            ) by {
                if j < less.pending.len() {
                    assert(less.pending[j] == state.pending[j]);
                }
            }
        }
    }
}

/// The text that is reported of a turn is the texts of all its deltas put together, as they
/// came: nothing is dropped, changed or repeated, also where an item comes whole after its
/// deltas.
pub proof fn law_turn_text_is_its_deltas(state: BackendView)
    requires
        state.stage is Answer,
        caught_up(state).state.stage is Answer,
        forall|i: int|
            0 <= i < state.pending.len() && is_item_end(#[trigger] state.pending[i]) ==> had_delta(
                state.pending,
                i,
            ),
    ensures
        collected(reported_events(caught_up(state).actions)) == delta_text(state.pending),
    decreases state.pending.len(),
{
    if state.pending.len() > 0 {
        let message = state.pending.last();
        let less = BackendView { pending: state.pending.drop_last(), ..state };
        let n = less.pending.len() as int;
        assert(less.pending.push(message) =~= state.pending);
        assert(state.pending[n] == message);
        if !(caught_up(less).state.stage is Answer) {
            lemma_caught_up_stops(less, message);
        } else {
            assert forall|i: int|
                0 <= i < less.pending.len() && is_item_end(
                    #[trigger] less.pending[i],
                ) implies had_delta(less.pending, i) by {
                assert(less.pending[i] == state.pending[i]);
                let j = choose|j: int|
                    0 <= j < i && is_delta(#[trigger] state.pending[j]) && name_of(
                        state.pending[j].at("params"@).at("itemId"@),
                    ) == name_of(state.pending[i].at("params"@).at("item"@).at("id"@));
                assert(less.pending[j] == state.pending[j]);
            }
            law_turn_text_is_its_deltas(less);
            lemma_caught_up_push(less, message);
            lemma_deltas_are_remembered(less);
            let before = caught_up(less).actions;
            let stage = caught_up(less).state.stage;
            let next = told(stage->Answer_0, stage->Answer_1, message);
            law_other_messages_change_nothing(stage->Answer_0, stage->Answer_1, message);
            law_item_text_is_reported_once(stage->Answer_0, stage->Answer_1, message);
            if is_delta(message) {
                law_delta_is_reported_as_it_came(stage->Answer_0, stage->Answer_1, message);
                let text = message.at("params"@).at("delta"@)->Text_0;
                let action = ActionView::Emit(EventView::Delta(text));
                assert(next.actions =~= seq![action]);
                assert(before + next.actions =~= before.push(action));
                assert(before.push(action).drop_last() =~= before);
                assert(reported_events(before.push(action)).drop_last() =~= reported_events(
                    before,
                ));
            } else {
                if is_item_end(message) {
                    assert(had_delta(state.pending, n));
                    let j = choose|j: int|
                        0 <= j < n && is_delta(#[trigger] state.pending[j]) && name_of(
                            state.pending[j].at("params"@).at("itemId"@),
                        ) == name_of(state.pending[n].at("params"@).at("item"@).at("id"@));
                    assert(less.pending[j] == state.pending[j]);
                } else if message.at("method"@) == JsonView::Text("thread/tokenUsage/updated"@) {
                    law_token_report_is_kept(stage->Answer_0, stage->Answer_1, message);
                } else if message.at("method"@) == JsonView::Text("turn/completed"@) {
                    law_turn_ends_by_its_status(stage->Answer_0, stage->Answer_1, message);
                }
                assert(next.actions.len() == 0);
                assert(before + next.actions =~= before);
            }
        }
    }
}

/// The text of an answer grows by each piece as it came, at its end, and by nothing else.
pub proof fn law_text_grows_at_its_end(
    text: Seq<char>,
    delta: Seq<char>,
    message: Seq<char>,
    usage: JsonView,
)
    ensures
        text_after(text, Some(EventView::Delta(delta))) == text + delta,
        text_after(text, Some(EventView::Done(usage))) == text,
        text_after(text, Some(EventView::Error(message))) == text,
        text_after(text, None) == text,
{
}

/// A chat stream that came to its end closes with a frame that holds `[DONE]` and has no name;
/// no other frame of an event does, and a responses stream has none.
pub proof fn law_marker_closes_a_complete_chat_stream(
    info: ReplyInfoView,
    include_usage: bool,
    text: Seq<char>,
    number: int,
    event: Option<EventView>,
)
    ensures
        ({
            let messages = message_frames(
                event_values(info, include_usage, text, event),
                info.responses,
                number,
            );
            let all = event_frames(info, include_usage, text, number, event);
            let complete = !info.responses && event is Some && event->0 is Done;
            &&& complete ==> all.len() == messages.len() + 1 && all.drop_last() == messages
                && all.last().data == "[DONE]"@ && all.last().event is None
            &&& !complete ==> all == messages
        }),
{
    let messages = message_frames(
        event_values(info, include_usage, text, event),
        info.responses,
        number,
    );
    assert(messages.push(done_frame()).drop_last() =~= messages);
}

/// A frame without a type among its members is named an error; an error of a stream says that
/// the server is to blame.
pub proof fn law_stream_error_blames_the_server(
    info: ReplyInfoView,
    text: Seq<char>,
    message: Seq<char>,
    value: JsonView,
    number: int,
)
    ensures
        !(value.at("type"@) is Text) ==> frame_view(value, true, number).event == Some("error"@),
        !info.responses ==> {
            let error = error_value(info, text, message).at("error"@);
            error.at("type"@) == JsonView::Text("server_error"@) && error.at("code"@)
                == JsonView::Text("backend_error"@)
        },
        info.responses ==> error_value(info, text, message).at("response"@).at("error"@).at(
            "code"@,
        ) == JsonView::Text("server_error"@),
        info.responses ==> error_value(info, text, message).at("response"@).at("id"@)
            == JsonView::Text(info.id),
{
    lemma_names();
}

/// The messages about a text say at which place of the answer it stands: the first.
pub proof fn law_text_stands_at_the_first_place(
    info: ReplyInfoView,
    delta: Seq<char>,
    text: Seq<char>,
    usage: JsonView,
)
    requires
        info.responses,
    ensures
        ({
            let more = delta_value(info, delta);
            let opening = opening_values(info);
            let closing = done_values(info, false, text, usage);
            &&& more.at("output_index"@) == JsonView::Integer(0)
            &&& more.at("content_index"@) == JsonView::Integer(0)
            &&& more.at("logprobs"@) == JsonView::Array(Seq::empty())
            &&& opening[2].at("output_index"@) == JsonView::Integer(0)
            &&& opening[2].at("item"@).at("type"@) == JsonView::Text("message"@)
            &&& opening[2].at("item"@).at("role"@) == JsonView::Text("assistant"@)
            &&& opening[3].at("output_index"@) == JsonView::Integer(0)
            &&& opening[3].at("content_index"@) == JsonView::Integer(0)
            &&& opening[3].at("part"@).at("type"@) == JsonView::Text("output_text"@)
            &&& closing[0].at("output_index"@) == JsonView::Integer(0)
            &&& closing[0].at("content_index"@) == JsonView::Integer(0)
            &&& closing[0].at("logprobs"@) == JsonView::Array(Seq::empty())
            &&& closing[1].at("output_index"@) == JsonView::Integer(0)
            &&& closing[1].at("content_index"@) == JsonView::Integer(0)
            &&& closing[1].at("part"@).at("type"@) == JsonView::Text("output_text"@)
            &&& closing[2].at("output_index"@) == JsonView::Integer(0)
        }),
{
    lemma_names();
}

/// A frame is what it holds: its data, and its name where it has one.
pub proof fn law_frame_is_what_it_holds(frame: Frame, list: Seq<Frame>, i: int)
    requires
        0 <= i < list.len(),
    ensures
        frame@.data == frame.data@,
        frame.event is Some <==> frame@.event is Some,
        frame.event is Some ==> frame@.event->0 == frame.event->0@,
        frames(list).len() == list.len(),
        frames(list)[i] == list[i]@,
{
}

} // verus!
