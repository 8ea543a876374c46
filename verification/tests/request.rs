use gprox::json::Json;
use gprox::request::{accept, parse, text_content, Parsed};

fn json(text: &str) -> Json {
    Json::parse(text).ok().unwrap()
}

fn refusal(text: &str, responses: bool) -> String {
    match parse(&json(text), responses) {
        Ok(_) => panic!("a refusal was expected"),
        Err(error) => {
            assert_eq!(error.status, 400);
            error.message
        }
    }
}

fn accepted(text: &str, responses: bool) -> Parsed {
    parse(&json(text), responses).ok().unwrap()
}

#[test]
fn preserves_history_and_separates_instructions() {
    let parsed = accepted(
        r#"{"model":"test","messages":[{"role":"system","content":"Be brief"},{"role":"user","content":"Hello"},{"role":"assistant","content":"Hi"},{"role":"user","content":[{"type":"text","text":"Again"}]}]}"#,
        false,
    );
    assert!(parsed.prompt.instructions.contains("Be brief"));
    let history: serde_json::Value = serde_json::from_str(&parsed.prompt.text).unwrap();
    assert_eq!(history.as_array().unwrap().len(), 3);
    assert_eq!(history[1]["role"], "assistant");
}

#[test]
fn rejects_unsupported_options_instead_of_silently_ignoring_them() {
    for extra in [
        r#"{"tools":[]}"#,
        r#"{"temperature":0.2}"#,
        r#"{"max_tokens":12}"#,
        r#"{"n":2}"#,
        r#"{"stream":"true"}"#,
    ] {
        let mut value: serde_json::Value =
            serde_json::from_str(r#"{"model":"test","messages":[{"role":"user","content":"hi"}]}"#)
                .unwrap();
        let extra: serde_json::Value = serde_json::from_str(extra).unwrap();
        value
            .as_object_mut()
            .unwrap()
            .extend(extra.as_object().unwrap().clone());
        assert!(parse(&Json::from_value(value), false).is_err());
    }
    assert!(parse(&json(r#"{"model":"test","input":"hi","store":true}"#), true).is_err());
    assert!(
        parse(
            &json(r#"{"model":"test","input":"hi","previous_response_id":"resp_1"}"#),
            true
        )
        .is_err()
    );
}

#[test]
fn refusals_name_the_first_unsupported_parameter() {
    assert_eq!(
        refusal(r#"{"model":"m","top_p":1,"temperature":0.2,"messages":[]}"#, false),
        "Unsupported parameter: temperature. gprox supports text generation only; see README."
    );
    // A parameter that is null counts as not given.
    assert!(parse(
        &json(r#"{"model":"m","temperature":null,"messages":[{"role":"user","content":"x"}]}"#),
        false
    )
    .is_ok());
}

#[test]
fn each_refusal_says_what_is_wrong() {
    let cases = [
        ("[]", false, "Request must be a JSON object"),
        ("{}", false, "model is required; use GET /v1/models"),
        (r#"{"model":" 　"}"#, false, "model is required; use GET /v1/models"),
        (r#"{"model":"m","stream":1}"#, false, "stream must be boolean"),
        (r#"{"model":"m","n":2}"#, false, "Only n=1 is supported"),
        (r#"{"model":"m","n":1.0}"#, false, "Only n=1 is supported"),
        (
            r#"{"model":"m","store":true,"input":"x"}"#,
            true,
            "Only store=false is supported; responses are stateless",
        ),
        (
            r#"{"model":"m","instructions":1,"input":"x"}"#,
            true,
            "instructions must be a string",
        ),
        (
            r#"{"model":"m","messages":[]}"#,
            false,
            "A nonempty messages/input array is required",
        ),
        (r#"{"model":"m","messages":"x"}"#, false, "A nonempty messages/input array is required"),
        (
            r#"{"model":"m","messages":[{"role":"user","content":"x","tool_calls":[]}]}"#,
            false,
            "Tool calls are not supported",
        ),
        (
            r#"{"model":"m","input":[{"type":"image","role":"user","content":"x"}]}"#,
            true,
            "Only message input items are supported",
        ),
        (
            r#"{"model":"m","messages":[{"content":"x"}]}"#,
            false,
            "Each message requires a role",
        ),
        (
            r#"{"model":"m","messages":[{"role":"tool","content":"x"}]}"#,
            false,
            "Unsupported message role: tool",
        ),
        (
            r#"{"model":"m","messages":[{"role":"user"}]}"#,
            false,
            "content must be text or an array of text parts",
        ),
        (
            r#"{"model":"m","messages":[{"role":"user","content":[{"type":"text"}]}]}"#,
            false,
            "Text part requires text",
        ),
        (
            r#"{"model":"m","messages":[{"role":"user","content":[{"type":"image_url"}]}]}"#,
            false,
            "Only text content is supported; images, audio and tool items are not supported",
        ),
        (
            r#"{"model":"m","messages":[{"role":"system","content":"x"}]}"#,
            false,
            "At least one user or assistant message is required",
        ),
        (
            r#"{"model":"m","input":"x","reasoning":1}"#,
            true,
            "reasoning must be an object",
        ),
        (
            r#"{"model":"m","input":"x","reasoning":{"summary":"auto"}}"#,
            true,
            "Only reasoning.effort is supported",
        ),
        (
            r#"{"model":"m","messages":[{"role":"user","content":"x"}],"reasoning_effort":"huge"}"#,
            false,
            "Invalid reasoning effort",
        ),
        (
            r#"{"model":"m","messages":[{"role":"user","content":"x"}],"stream_options":1}"#,
            false,
            "stream_options must be an object",
        ),
        (
            r#"{"model":"m","messages":[{"role":"user","content":"x"}],"stream_options":{"a":1}}"#,
            false,
            "Only stream_options.include_usage is supported",
        ),
        (
            r#"{"model":"m","messages":[{"role":"user","content":"x"}],"stream_options":{"include_usage":1}}"#,
            false,
            "include_usage must be boolean",
        ),
    ];
    for (text, responses, message) in cases {
        assert_eq!(refusal(text, responses), message);
    }
}

#[test]
fn accepted_requests_keep_all_that_is_forwarded() {
    let parsed = accepted(
        r#"{"model":"m","messages":[{"role":"developer","content":"a"},{"role":"user","content":[{"type":"text","text":"b"},{"type":"input_text","text":"c"}]},{"role":"system","content":"d"}],"stream":true,"stream_options":{"include_usage":true},"reasoning_effort":"xhigh","n":1,"user":"u"}"#,
        false,
    );
    assert_eq!(parsed.prompt.model, "m");
    assert_eq!(parsed.prompt.instructions, "\na\nd");
    assert_eq!(parsed.prompt.text, r#"[{"content":"bc","role":"user"}]"#);
    assert_eq!(parsed.prompt.effort.as_deref(), Some("xhigh"));
    assert!(parsed.stream);
    assert!(parsed.include_usage);

    let parsed = accepted(
        r#"{"model":"m","input":"hi \"you\"","instructions":"i","reasoning":{"effort":"low"},"store":false,"metadata":{"a":1},"user":"u"}"#,
        true,
    );
    assert_eq!(parsed.prompt.instructions, "i");
    assert_eq!(parsed.prompt.text, r#"[{"content":"hi \"you\"","role":"user"}]"#);
    assert_eq!(parsed.prompt.effort.as_deref(), Some("low"));
    assert!(!parsed.stream);
    assert!(!parsed.include_usage);
}

#[test]
fn parameters_that_are_not_forwarded_change_nothing() {
    let with = accepted(r#"{"model":"m","input":"x","metadata":{"a":[1]},"user":"u"}"#, true);
    let without = accepted(r#"{"model":"m","input":"x"}"#, true);
    assert_eq!(with.prompt.text, without.prompt.text);
    assert_eq!(with.prompt.instructions, without.prompt.instructions);
    assert!(with.prompt.effort.is_none() && without.prompt.effort.is_none());
}

#[test]
fn metadata_may_be_passed_on_both_interfaces() {
    let parsed = accepted(
        r#"{"model":"test","messages":[{"role":"user","content":"hi"}],"metadata":{"k":"v"}}"#,
        false,
    );
    assert_eq!(parsed.prompt.text, r#"[{"content":"hi","role":"user"}]"#);
    assert_eq!(parsed.prompt.instructions, "");
    assert!(parsed.prompt.effort.is_none());
    assert_eq!(
        refusal(
            r#"{"model":"test","messages":[{"role":"user","content":"hi"}],"metadata":{"k":"v"},"tools":[]}"#,
            false
        ),
        "Unsupported parameter: tools. gprox supports text generation only; see README."
    );
}

#[test]
fn a_text_input_is_one_message_of_a_user() {
    let short = accepted(r#"{"model":"m","input":"hi","instructions":"i"}"#, true);
    let long = accepted(
        r#"{"model":"m","input":[{"role":"user","content":"hi"}],"instructions":"i"}"#,
        true,
    );
    assert_eq!(short.prompt.text, long.prompt.text);
    assert_eq!(short.prompt.instructions, long.prompt.instructions);
}

#[test]
fn bodies_that_are_no_json_are_refused() {
    let value: serde_json::Value = serde_json::from_str(r#"{"model":"m","input":"x"}"#).unwrap();
    assert!(accept(Ok(value), true).is_ok());
    let error = accept(Err("Expected request with JSON".to_owned()), true).err().unwrap();
    assert_eq!(error.status, 400);
    assert_eq!(error.message, "Expected request with JSON");
}

#[test]
fn content_is_text_or_text_parts() {
    assert_eq!(text_content(&json("\"x\"")).ok().unwrap(), "x");
    assert_eq!(text_content(&json("[]")).ok().unwrap(), "");
    assert_eq!(
        text_content(&json(r#"[{"type":"output_text","text":"世"},{"type":"text","text":"界"}]"#))
            .ok()
            .unwrap(),
        "世界"
    );
    assert!(text_content(&json("null")).is_err());
}
