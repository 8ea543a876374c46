use gprox::backend::{
    arguments, frame, label, output_closed, removed_variables, Action, Backend, BackendConfig,
    GenerationEvent, Stage, Tail,
};
use gprox::json::Json;
use gprox::request::Prompt;

fn prompt() -> Prompt {
    Prompt {
        model: "mock-model".to_owned(),
        text: "[]".to_owned(),
        instructions: "Be brief".to_owned(),
        effort: Some("low".to_owned()),
    }
}

/// What actions say, one line each.
fn told(actions: &[Action]) -> Vec<String> {
    let mut lines = Vec::new();
    for action in actions {
        lines.push(match action {
            Action::Send(message) => format!("send {}", message.render()),
            Action::Emit(GenerationEvent::Delta(text)) => format!("delta {text}"),
            Action::Emit(GenerationEvent::Done(usage)) => format!("done {}", usage.render()),
            Action::Emit(GenerationEvent::Error(message)) => format!("error {message}"),
            Action::Ready => "ready".to_owned(),
            Action::Models(list) => format!("models {}", list.render()),
            Action::Complete => "complete".to_owned(),
            Action::Fail(failure) => format!("fail {}", failure.message),
        });
    }
    lines
}

fn hear(backend: Backend, lines: &[&str]) -> (Backend, Vec<String>) {
    let mut backend = backend;
    let mut all = Vec::new();
    for line in lines {
        let (next, actions) = backend.receive(line);
        all.extend(told(&actions));
        backend = next;
    }
    (backend, all)
}

fn connected() -> Backend {
    let (backend, _) = Backend::connect("0.1.0");
    let (backend, all) = hear(
        backend,
        &[
            r#"{"id":1,"result":{}}"#,
            r#"{"id":2,"result":{"account":{"type":"chatgpt"}}}"#,
        ],
    );
    assert_eq!(all.last().unwrap(), "ready");
    backend
}

/// A client that takes an answer in.
fn answering() -> Backend {
    let (backend, _) = connected().generate(prompt(), "/work");
    let (backend, _) = hear(
        backend,
        &[
            r#"{"id":3,"result":{"config":{}}}"#,
            r#"{"id":4,"result":{"thread":{"id":"t"}}}"#,
            r#"{"id":5,"result":{}}"#,
        ],
    );
    assert!(matches!(backend.stage, Stage::Answer(_, _)));
    backend
}

#[test]
fn connecting_introduces_the_client_and_checks_the_login() {
    let (backend, first) = Backend::connect("0.1.0");
    assert_eq!(
        first.render(),
        r#"{"id":1,"method":"initialize","params":{"clientInfo":{"name":"gprox","version":"0.1.0"}}}"#
    );
    let (backend, all) = hear(backend, &[r#"{"id":1,"result":{}}"#]);
    assert_eq!(
        all,
        [
            r#"send {"method":"initialized","params":{}}"#,
            r#"send {"id":2,"method":"account/read","params":{"refreshToken":false}}"#,
        ]
    );
    let (backend, all) =
        hear(backend, &[r#"{"id":2,"result":{"account":{"type":"apiKey"}}}"#]);
    assert_eq!(all, ["fail Codex is not signed in with ChatGPT. Run codex login first."]);
    assert!(matches!(backend.stage, Stage::Idle));
    assert_eq!(connected().sequence, 2);
}

#[test]
fn models_are_collected_over_all_pages() {
    let (backend, first) = connected().models();
    assert_eq!(
        first.render(),
        r#"{"id":3,"method":"model/list","params":{"cursor":null,"limit":100}}"#
    );
    let (backend, all) = hear(
        backend,
        &[r#"{"id":3,"result":{"data":[{"model":"a"}],"nextCursor":"n"}}"#],
    );
    assert_eq!(
        all,
        [r#"send {"id":4,"method":"model/list","params":{"cursor":"n","limit":100}}"#]
    );
    let (backend, all) = hear(
        backend,
        &[r#"{"id":4,"result":{"data":[{"model":"b"}],"nextCursor":null}}"#],
    );
    assert_eq!(
        all,
        [
            r#"models {"data":[{"created":0,"id":"a","object":"model","owned_by":"openai"},{"created":0,"id":"b","object":"model","owned_by":"openai"}],"object":"list"}"#
        ]
    );
    let (backend, _) = backend.models();
    let (_, all) = hear(backend, &[r#"{"id":5,"result":{"data":{}}}"#]);
    assert_eq!(all, ["fail Codex returned invalid model list"]);
}

#[test]
fn an_answer_is_the_text_of_its_items() {
    let (backend, first) = connected().generate(prompt(), "/work");
    assert_eq!(
        first.render(),
        r#"{"id":3,"method":"config/read","params":{"includeLayers":false}}"#
    );
    let (backend, actions) = backend.receive(
        r#"{"id":3,"result":{"config":{"mcp_servers":{"unsafe":{"command":"mock-command"}}}}}"#,
    );
    let Action::Send(thread) = &actions[0] else {
        panic!("a request was expected");
    };
    let thread = thread.to_value();
    assert_eq!(thread["method"], "thread/start");
    assert_eq!(thread["params"]["model"], "mock-model");
    assert_eq!(thread["params"]["cwd"], "/work");
    assert_eq!(thread["params"]["ephemeral"], true);
    assert_eq!(thread["params"]["sandbox"], "read-only");
    assert_eq!(thread["params"]["approvalPolicy"], "on-request");
    assert_eq!(thread["params"]["config"]["mcp_servers.unsafe.enabled"], false);
    assert_eq!(thread["params"]["config"].as_object().unwrap().len(), 1);
    assert_eq!(thread["params"]["developerInstructions"], "Be brief");
    let (backend, all) =
        hear(backend, &[r#"{"id":4,"result":{"thread":{"id":"thread-test"}}}"#]);
    assert_eq!(
        all,
        [
            r#"send {"id":5,"method":"turn/start","params":{"effort":"low","input":[{"text":"[]","text_elements":[],"type":"text"}],"threadId":"thread-test"}}"#
        ]
    );
    let (backend, all) = hear(
        backend,
        &[
            r#"{"id":5,"result":{}}"#,
            r#"{"method":"item/agentMessage/delta","params":{"itemId":"item-test","delta":"Hello "}}"#,
            r#"{"method":"item/agentMessage/delta","params":{"itemId":"item-test","delta":"世界"}}"#,
            r#"{"method":"item/completed","params":{"item":{"id":"item-test","type":"agentMessage","text":"Hello 世界"}}}"#,
            r#"{"method":"thread/tokenUsage/updated","params":{"tokenUsage":{"total":{"totalTokens":13}}}}"#,
            r#"{"method":"turn/completed","params":{"turn":{"status":"completed"}}}"#,
        ],
    );
    assert_eq!(
        all,
        ["delta Hello ", "delta 世界", r#"done {"totalTokens":13}"#, "complete"]
    );
    assert!(matches!(backend.stage, Stage::Idle));
}

#[test]
fn items_without_deltas_are_reported_whole_and_once() {
    let item = r#"{"method":"item/completed","params":{"item":{"id":"i","type":"agentMessage","text":"Hi"}}}"#;
    let (_, all) = hear(
        answering(),
        &[
            item,
            item,
            r#"{"method":"item/completed","params":{"item":{"id":"r","type":"reasoning","text":"no"}}}"#,
            r#"{"method":"item/completed","params":{"item":{"id":"e","type":"agentMessage"}}}"#,
            r#"{"method":"turn/completed","params":{"turn":{"status":"completed"}}}"#,
        ],
    );
    // Without a report of the tokens there is none to pass on.
    assert_eq!(all, ["delta Hi", "done null", "complete"]);
}

#[test]
fn requests_of_the_server_are_refused_at_any_time() {
    let ask = r#"{"id":"x","method":"execCommandApproval","params":{}}"#;
    let reply = r#"send {"error":{"code":-32601,"message":"Interactive tools are disabled by gprox"},"id":"x"}"#;
    let (backend, all) = hear(connected(), &[ask]);
    assert_eq!(all, [reply]);
    assert_eq!(backend.pending.len(), 0);
    let (backend, _) = backend.models();
    let (backend, all) = hear(backend, &[ask]);
    assert_eq!(all, [reply]);
    assert!(matches!(backend.stage, Stage::Models(_)));
    let (_, all) = hear(answering(), &[ask]);
    assert_eq!(all, [reply]);
}

#[test]
fn early_messages_are_kept_in_order() {
    let (backend, _) = connected().generate(prompt(), "/work");
    let (backend, all) = hear(
        backend,
        &[
            r#"{"method":"item/agentMessage/delta","params":{"itemId":"i","delta":"a"}}"#,
            r#"{"id":3,"result":{"config":{}}}"#,
            r#"{"method":"item/agentMessage/delta","params":{"itemId":"i","delta":"b"}}"#,
            r#"{"id":99,"result":{}}"#,
            r#"{"id":4,"result":{"thread":{"id":"t"}}}"#,
            r#"{"method":"turn/completed","params":{"turn":{"status":"completed"}}}"#,
            r#"{"method":"late"}"#,
            r#"{"id":5,"result":{}}"#,
        ],
    );
    assert_eq!(&all[2..], ["delta a", "delta b", "done null", "complete"]);
    // What came behind the end of the answer is still there.
    assert_eq!(backend.pending.len(), 1);
    assert_eq!(label(&backend.pending[0]), "late");
}

#[test]
fn each_failure_says_what_is_wrong() {
    let (backend, _) = Backend::connect("0.1.0");
    let (_, all) = hear(backend, &["not json"]);
    assert_eq!(all, ["fail Invalid Codex JSON-RPC output"]);
    let (backend, _) = Backend::connect("0.1.0");
    let (_, all) = hear(backend, &[r#"{"id":1,"error":{"message":"no"}}"#]);
    assert_eq!(all, [r#"fail Codex initialize: "no""#]);
    let (backend, _) = Backend::connect("0.1.0");
    let (_, all) = hear(backend, &[r#"{"id":1}"#]);
    assert_eq!(all, ["fail Codex response has no result"]);
    let (backend, _) = connected().generate(prompt(), "/work");
    let (_, all) = hear(
        backend,
        &[r#"{"id":3,"result":{}}"#, r#"{"id":4,"result":{"thread":{"id":7}}}"#],
    );
    assert_eq!(all[1], "fail Codex did not return a thread ID");
    let (_, all) = hear(
        answering(),
        &[r#"{"method":"item/agentMessage/delta","params":{"itemId":"i"}}"#],
    );
    assert_eq!(all, ["fail Missing text delta"]);
    let (_, all) = hear(
        answering(),
        &[r#"{"method":"turn/completed","params":{"turn":{"status":"failed","error":{"message":"mock upstream failure"}}}}"#],
    );
    assert_eq!(all, [r#"fail Codex turn "failed": "mock upstream failure""#]);
    let (_, all) = hear(
        answering(),
        &[
            r#"{"method":"error","params":{"willRetry":true,"error":{"message":"wait"}}}"#,
            r#"{"method":"error","params":{"error":{"message":"limit"}}}"#,
        ],
    );
    assert_eq!(all, [r#"fail Codex: "limit""#]);
    assert_eq!(
        output_closed("tail").message,
        "Codex app-server closed its output: tail"
    );
}

#[test]
fn messages_are_lines() {
    let message = Json::parse(r#"{"a":"x\ny"}"#).ok().unwrap();
    assert_eq!(frame(&message), "{\"a\":\"x\\ny\"}\n");
    assert_eq!(label(&message), "RPC response");
    let message = Json::parse(r#"{"method":"m"}"#).ok().unwrap();
    assert_eq!(label(&message), "m");
}

#[test]
fn the_server_is_started_without_tools_and_keys() {
    let arguments = arguments();
    assert_eq!(arguments[..3], ["app-server", "--listen", "stdio://"]);
    assert_eq!(arguments.len(), 3 + 2 * 22);
    assert_eq!(arguments[3..5], ["-c", "model_provider=\"openai\""]);
    assert!(arguments.contains(&"sandbox_mode=\"read-only\"".to_owned()));
    assert!(arguments.contains(&"features.shell_tool=false".to_owned()));
    assert_eq!(arguments[45..], ["-c", "features.remote_control=false"]);
    assert_eq!(
        removed_variables(),
        ["OPENAI_API_KEY", "CODEX_API_KEY", "CODEX_THREAD_ID"]
    );
    let config = BackendConfig { executable: "codex".into(), workspace: ".".into() };
    assert_eq!(config.executable.to_str(), Some("codex"));
    assert_eq!(config.workspace.to_str(), Some("."));
}

#[test]
fn only_the_last_complaints_are_kept() {
    let mut tail = Tail::new();
    assert_eq!(tail.text(), "");
    for i in 0..3 {
        tail.push(format!("line {i}"));
    }
    assert_eq!(tail.text(), "line 0\nline 1\nline 2");
    for i in 3..10 {
        tail.push(format!("line {i}"));
    }
    assert_eq!(
        tail.text(),
        "line 2\nline 3\nline 4\nline 5\nline 6\nline 7\nline 8\nline 9"
    );
}
