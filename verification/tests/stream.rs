use gprox::backend::GenerationEvent;
use gprox::failure::Failure;
use gprox::json::Json;
use gprox::reply::{
    chat_usage, chunk, completion, output_item, output_part, reply, reply_id, response_object,
    usage_chunk, ReplyInfo,
};
use gprox::stream::{last_event, Collector, Ending, Frame, Stream};
use serde_json::Value;

fn info(responses: bool) -> ReplyInfo {
    ReplyInfo {
        id: "id".to_owned(),
        created: 7,
        model: "m".to_owned(),
        responses,
    }
}

fn usage() -> Json {
    Json::parse(
        r#"{"inputTokens":10,"outputTokens":3,"totalTokens":13,"cachedInputTokens":2,"reasoningOutputTokens":1}"#,
    )
    .ok()
    .unwrap()
}

fn delta(text: &str) -> Option<GenerationEvent> {
    Some(GenerationEvent::Delta(text.to_owned()))
}

fn values(frames: &[Frame]) -> Vec<Value> {
    let mut values = Vec::new();
    for frame in frames {
        values.push(serde_json::from_str(&frame.data).unwrap());
    }
    values
}

#[test]
fn whole_answers_hold_all_text() {
    let mut collector = Collector::new(info(false));
    assert!(collector.receive(delta("Hello ")).is_none());
    assert!(collector.receive(delta("世界")).is_none());
    let answer = collector.receive(Some(GenerationEvent::Done(usage()))).unwrap();
    let value = answer.ok().unwrap().to_value();
    assert_eq!(value["choices"][0]["message"]["content"], "Hello 世界");
    assert_eq!(value["choices"][0]["finish_reason"], "stop");
    assert_eq!(value["usage"]["total_tokens"], 13);
    assert_eq!(value["object"], "chat.completion");

    let mut collector = Collector::new(info(true));
    assert!(collector.receive(delta("Hello 世界")).is_none());
    let answer = collector.receive(Some(GenerationEvent::Done(Json::Null))).unwrap();
    let value = answer.ok().unwrap().to_value();
    assert_eq!(value["output"][0]["content"][0]["text"], "Hello 世界");
    assert_eq!(value["status"], "completed");
    assert!(value["usage"].is_null());
}

#[test]
fn failed_answers_are_refused() {
    let mut collector = Collector::new(info(false));
    let error = collector
        .receive(Some(GenerationEvent::Error("Codex: \"limit\"".to_owned())))
        .unwrap()
        .err()
        .unwrap();
    assert_eq!(error.status, 502);
    assert_eq!(error.message, "Codex: \"limit\"");
    let error = collector
        .receive(last_event(Ending::TimedOut))
        .unwrap()
        .err()
        .unwrap();
    assert_eq!(error.status, 504);
    assert_eq!(error.message, "Codex request timed out");
    let error = collector
        .receive(last_event(Ending::Stopping))
        .unwrap()
        .err()
        .unwrap();
    assert_eq!(error.status, 502);
    assert_eq!(error.message, "Proxy is stopping");
    let error = collector.receive(None).unwrap().err().unwrap();
    assert_eq!(error.status, 502);
    assert_eq!(error.message, "Codex closed without completing the response");
}

#[test]
fn endings_are_reported_unless_complete() {
    assert!(last_event(Ending::Complete).is_none());
    match last_event(Ending::Failed(Failure::new("why"))) {
        Some(GenerationEvent::Error(message)) => assert_eq!(message, "why"),
        _ => panic!("an error was expected"),
    }
}

#[test]
fn chat_streams_end_with_a_marker() {
    let mut stream = Stream::new(info(false), true);
    let opening = stream.open();
    assert_eq!(opening.len(), 1);
    assert_eq!(
        opening[0].data,
        r#"{"choices":[{"delta":{"content":"","role":"assistant"},"finish_reason":null,"index":0}],"created":7,"id":"id","model":"m","object":"chat.completion.chunk"}"#
    );
    assert!(opening[0].event.is_none());
    let (frames, over) = stream.receive(delta("世界"));
    assert!(!over);
    assert_eq!(values(&frames)[0]["choices"][0]["delta"]["content"], "世界");
    let (frames, over) = stream.receive(Some(GenerationEvent::Done(usage())));
    assert!(over);
    assert_eq!(frames.len(), 3);
    assert_eq!(values(&frames[..1])[0]["choices"][0]["finish_reason"], "stop");
    assert_eq!(values(&frames[1..2])[0]["usage"]["total_tokens"], 13);
    assert_eq!(frames[2].data, "[DONE]");
    assert!(frames[2].event.is_none());

    let mut stream = Stream::new(info(false), false);
    let (frames, over) = stream.receive(Some(GenerationEvent::Done(usage())));
    assert!(over);
    assert_eq!(frames.len(), 2);
    assert_eq!(frames[1].data, "[DONE]");
}

#[test]
fn responses_streams_are_numbered_and_named() {
    let mut stream = Stream::new(info(true), false);
    let mut frames = stream.open();
    let (more, over) = stream.receive(delta("a"));
    assert!(!over);
    frames.extend(more);
    let (more, over) = stream.receive(delta("b"));
    assert!(!over);
    frames.extend(more);
    let (more, over) = stream.receive(Some(GenerationEvent::Done(usage())));
    assert!(over);
    frames.extend(more);
    let names = [
        "response.created",
        "response.in_progress",
        "response.output_item.added",
        "response.content_part.added",
        "response.output_text.delta",
        "response.output_text.delta",
        "response.output_text.done",
        "response.content_part.done",
        "response.output_item.done",
        "response.completed",
    ];
    assert_eq!(frames.len(), names.len());
    let values = values(&frames);
    for i in 0..names.len() {
        assert_eq!(frames[i].event.as_deref(), Some(names[i]));
        assert_eq!(values[i]["type"], names[i]);
        assert_eq!(values[i]["sequence_number"], i);
    }
    assert_eq!(values[4]["delta"], "a");
    assert_eq!(values[4]["item_id"], "msg_id");
    assert_eq!(values[6]["text"], "ab");
    assert_eq!(values[7]["part"]["text"], "ab");
    assert_eq!(values[8]["item"]["content"][0]["text"], "ab");
    assert_eq!(values[9]["response"]["output"][0]["content"][0]["text"], "ab");
    assert_eq!(values[9]["response"]["usage"]["input_tokens_details"]["cached_tokens"], 2);
}

#[test]
fn streams_close_with_their_error() {
    let mut stream = Stream::new(info(false), true);
    let (frames, over) = stream.receive(Some(GenerationEvent::Error("why".to_owned())));
    assert!(over);
    assert_eq!(
        frames[0].data,
        r#"{"error":{"code":"backend_error","message":"why","type":"server_error"}}"#
    );
    assert_eq!(frames.len(), 1);
    let mut stream = Stream::new(info(true), false);
    let (_, over) = stream.receive(delta("half"));
    assert!(!over);
    let (frames, over) = stream.receive(Some(GenerationEvent::Error("why".to_owned())));
    assert!(over);
    assert_eq!(frames[0].event.as_deref(), Some("response.failed"));
    let value = &values(&frames)[0];
    assert_eq!(value["response"]["status"], "failed");
    assert_eq!(value["response"]["error"]["message"], "why");
    assert_eq!(value["response"]["output"][0]["status"], "incomplete");
    assert_eq!(value["response"]["output"][0]["content"][0]["text"], "half");
    // A stream whose backend went away ends without a word.
    let mut stream = Stream::new(info(true), false);
    let (frames, over) = stream.receive(None);
    assert!(over);
    assert_eq!(frames.len(), 0);
}

#[test]
fn bodies_have_the_openai_shape() {
    assert_eq!(
        chunk(&info(false), Json::object(), Json::text("stop")).render(),
        r#"{"choices":[{"delta":{},"finish_reason":"stop","index":0}],"created":7,"id":"id","model":"m","object":"chat.completion.chunk"}"#
    );
    assert_eq!(
        chat_usage(&usage()).render(),
        r#"{"completion_tokens":3,"completion_tokens_details":{"reasoning_tokens":1},"prompt_tokens":10,"prompt_tokens_details":{"cached_tokens":2},"total_tokens":13}"#
    );
    assert_eq!(chat_usage(&Json::Null).render(), "null");
    assert_eq!(
        usage_chunk(&info(false), &Json::Null).render(),
        r#"{"choices":[],"created":7,"id":"id","model":"m","object":"chat.completion.chunk","usage":null}"#
    );
    assert_eq!(
        completion(&info(false), "t", &Json::Null).render(),
        r#"{"choices":[{"finish_reason":"stop","index":0,"message":{"content":"t","role":"assistant"}}],"created":7,"id":"id","model":"m","object":"chat.completion","usage":null}"#
    );
    assert_eq!(
        output_part("t").render(),
        r#"{"annotations":[],"logprobs":[],"text":"t","type":"output_text"}"#
    );
    assert_eq!(
        output_item("id", "t", "completed").render(),
        r#"{"content":[{"annotations":[],"logprobs":[],"text":"t","type":"output_text"}],"id":"msg_id","role":"assistant","status":"completed","type":"message"}"#
    );
    assert_eq!(
        response_object(&info(true), "", "in_progress", &Json::Null).render(),
        r#"{"created_at":7,"error":null,"id":"id","incomplete_details":null,"model":"m","object":"response","output":[],"parallel_tool_calls":false,"status":"in_progress","store":false,"tool_choice":"none","tools":[],"usage":null}"#
    );
    assert_eq!(
        reply(&info(true), "t", &Json::Null).to_value()["object"],
        "response"
    );
    assert_eq!(
        reply(&info(false), "t", &Json::Null).to_value()["object"],
        "chat.completion"
    );
}

#[test]
fn reply_names_are_new_each_time() {
    let one = reply_id(true);
    assert_eq!(one.len(), 5 + 32);
    assert!(one.starts_with("resp_"));
    assert_eq!(one.as_bytes()[5 + 12], b'4');
    let two = reply_id(false);
    assert_eq!(two.len(), 9 + 32);
    assert!(two.starts_with("chatcmpl-"));
    assert!(two[9..].bytes().all(|b| b.is_ascii_digit() || (b'a'..=b'f').contains(&b)));
    assert_ne!(reply_id(true), one);
}
