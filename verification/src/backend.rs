//! The conversation with the Codex app-server: one JSON message per line, requests with
//! a number and their answers, and messages that nobody asked for.
use crate::failure::Failure;
use crate::json::{items_view, lemma_items_view, lemma_members_view, members_view, Json, JsonView};
use crate::names::lemma_names;
use crate::reply::empty_array;
use crate::request::{Prompt, PromptView};
use crate::text::{joined, starts_with, texts};
use crate::value::{json_text, one_line, parsed_json, plain};
use std::collections::VecDeque;
use vstd::hash_set::StringHashSet;
use vstd::prelude::*;

verus! {

/// `std::path::PathBuf`, a path of the machine that the gateway runs on.
#[verifier::external_type_specification]
#[verifier::external_body]
pub struct ExPathBuf(std::path::PathBuf);

/// Where the app-server is, and where it works.
pub struct BackendConfig {
    pub executable: std::path::PathBuf,
    pub workspace: std::path::PathBuf,
}

/// What the backend reports of an answer in the making.
pub enum GenerationEvent {
    /// More text.
    Delta(String),
    /// The answer is complete; the tokens used are reported if they are known.
    Done(Json),
    /// The answer failed.
    Error(String),
}

pub enum EventView {
    Delta(Seq<char>),
    Done(JsonView),
    Error(Seq<char>),
}

impl View for GenerationEvent {
    type V = EventView;

    open spec fn view(&self) -> EventView {
        match self {
            GenerationEvent::Delta(text) => EventView::Delta(text@),
            GenerationEvent::Done(usage) => EventView::Done(usage@),
            GenerationEvent::Error(message) => EventView::Error(message@),
        }
    }
}

// ---------------------------------------------------------------------------
// Starting the app-server

/// The options that take every tool from the app-server and keep it from writing.
pub open spec fn launch_options() -> Seq<Seq<char>> {
    seq![
        "model_provider=\"openai\""@,
        "forced_login_method=\"chatgpt\""@,
        "approval_policy=\"on-request\""@,
        "sandbox_mode=\"read-only\""@,
        "web_search=\"disabled\""@,
        "features.shell_tool=false"@,
        "features.unified_exec=false"@,
        "features.apps=false"@,
        "features.plugins=false"@,
        "features.hooks=false"@,
        "features.multi_agent=false"@,
        "features.multi_agent_v2=false"@,
        "features.code_mode=false"@,
        "features.code_mode_host=false"@,
        "features.browser_use=false"@,
        "features.computer_use=false"@,
        "features.image_generation=false"@,
        "features.view_image=false"@,
        "features.memories=false"@,
        "features.skill_search=false"@,
        "features.goals=false"@,
        "features.remote_control=false"@,
    ]
}

/// The arguments that set options, each behind a flag of its own.
pub open spec fn option_arguments(options: Seq<Seq<char>>) -> Seq<Seq<char>>
    decreases options.len(),
{
    if options.len() == 0 {
        Seq::empty()
    } else {
        option_arguments(options.drop_last()).push("-c"@).push(options.last())
    }
}

/// The arguments that the app-server is started with.
pub open spec fn launch_arguments() -> Seq<Seq<char>> {
    seq!["app-server"@, "--listen"@, "stdio://"@] + option_arguments(launch_options())
}

/// The arguments that the app-server is started with.
pub fn arguments() -> (list: Vec<String>)
    ensures
        texts(list@) == launch_arguments(),
{
    let options = [
        "model_provider=\"openai\"",
        "forced_login_method=\"chatgpt\"",
        "approval_policy=\"on-request\"",
        "sandbox_mode=\"read-only\"",
        "web_search=\"disabled\"",
        "features.shell_tool=false",
        "features.unified_exec=false",
        "features.apps=false",
        "features.plugins=false",
        "features.hooks=false",
        "features.multi_agent=false",
        "features.multi_agent_v2=false",
        "features.code_mode=false",
        "features.code_mode_host=false",
        "features.browser_use=false",
        "features.computer_use=false",
        "features.image_generation=false",
        "features.view_image=false",
        "features.memories=false",
        "features.skill_search=false",
        "features.goals=false",
        "features.remote_control=false",
    ];
    let ghost wanted = options@.map_values(|option: &'static str| option@);
    assert(wanted == launch_options());
    let mut list: Vec<String> = Vec::new();
    list.push("app-server".to_owned());
    list.push("--listen".to_owned());
    list.push("stdio://".to_owned());
    let mut i: usize = 0;
    assert(texts(list@) == seq!["app-server"@, "--listen"@, "stdio://"@]);
    assert(option_arguments(wanted.take(0)) == Seq::<Seq<char>>::empty());
    while i < options.len()
        invariant
            i <= options.len(),
            wanted == options@.map_values(|option: &'static str| option@),
            texts(list@) == seq!["app-server"@, "--listen"@, "stdio://"@] + option_arguments(
                wanted.take(i as int),
            ),
        decreases options.len() - i,
    {
        let ghost before = texts(list@);
        list.push("-c".to_owned());
        assert(texts(list@) == before.push("-c"@));
        list.push(options[i].to_owned());
        assert(texts(list@) == before.push("-c"@).push(wanted[i as int]));
        assert(wanted.take(i + 1).drop_last() == wanted.take(i as int));
        assert(wanted.take(i + 1).last() == wanted[i as int]);
        i = i + 1;
    }
    assert(wanted.take(options.len() as int) == wanted);
    list
}

/// The variables that the app-server does not get to see: the gateway uses the login
/// that is there, never a key that it inherited.
pub fn removed_variables() -> (list: Vec<String>)
    ensures
        texts(list@) == seq!["OPENAI_API_KEY"@, "CODEX_API_KEY"@, "CODEX_THREAD_ID"@],
{
    let mut list: Vec<String> = Vec::new();
    list.push("OPENAI_API_KEY".to_owned());
    list.push("CODEX_API_KEY".to_owned());
    list.push("CODEX_THREAD_ID".to_owned());
    assert(texts(list@) == seq!["OPENAI_API_KEY"@, "CODEX_API_KEY"@, "CODEX_THREAD_ID"@]);
    list
}

/// How many lines of the app-server's complaints are kept.
pub const TAIL_LENGTH: usize = 8;

/// The last of some lines.
pub open spec fn last_lines(lines: Seq<Seq<char>>) -> Seq<Seq<char>> {
    if lines.len() <= TAIL_LENGTH {
        lines
    } else {
        lines.skip(lines.len() - TAIL_LENGTH)
    }
}

/// Lines with a line break between each two.
pub open spec fn joined_lines(lines: Seq<Seq<char>>) -> Seq<char>
    decreases lines.len(),
{
    if lines.len() == 0 {
        Seq::empty()
    } else if lines.len() == 1 {
        lines[0]
    } else {
        joined_lines(lines.drop_last()) + "\n"@ + lines.last()
    }
}

/// The end of what the app-server complained about.
pub struct Tail {
    pub lines: VecDeque<String>,
}

impl View for Tail {
    type V = Seq<Seq<char>>;

    open spec fn view(&self) -> Seq<Seq<char>> {
        texts(self.lines@)
    }
}

impl Tail {
    pub fn new() -> (tail: Tail)
        ensures
            tail@ == Seq::<Seq<char>>::empty(),
    {
        let tail = Tail { lines: VecDeque::new() };
        assert(tail@ == Seq::<Seq<char>>::empty());
        tail
    }

    /// Adds a line; the oldest one goes when there are too many.
    pub fn push(&mut self, line: String)
        requires
            old(self)@.len() <= TAIL_LENGTH,
        ensures
            final(self)@ == last_lines(old(self)@.push(line@)),
            final(self)@.len() <= TAIL_LENGTH,
    {
        self.lines.push_back(line);
        assert(self@ == old(self)@.push(line@));
        if self.lines.len() > TAIL_LENGTH {
            let ghost all = self@;
            let _ = self.lines.pop_front();
            assert(self@ == all.skip(1));
        }
    }

    /// The lines as one text.
    pub fn text(&self) -> (text: String)
        ensures
            text@ == joined_lines(self@),
    {
        let mut text = String::new();
        let mut i: usize = 0;
        assert(self@.take(0) == Seq::<Seq<char>>::empty());
        while i < self.lines.len()
            invariant
                i <= self.lines.len(),
                text@ == joined_lines(self@.take(i as int)),
            decreases self.lines.len() - i,
        {
            let ghost next = self@.take(i + 1);
            assert(next.drop_last() == self@.take(i as int));
            assert(next.last() == self.lines@[i as int]@);
            if i > 0 {
                text.append("\n");
            }
            text.append(self.lines[i].as_str());
            assert(text@ == joined_lines(next));
            i = i + 1;
        }
        assert(self@.take(self.lines.len() as int) == self@);
        text
    }
}

/// However many lines came, the last ones are kept, in their order.
pub proof fn law_tail_keeps_the_last_lines(earlier: Seq<Seq<char>>, line: Seq<char>)
    ensures
        last_lines(last_lines(earlier).push(line)) == last_lines(earlier.push(line)),
        last_lines(earlier).len() <= TAIL_LENGTH,
{
}

/// Why a conversation ends when the app-server says no more.
pub fn output_closed(details: &str) -> (failure: Failure)
    ensures
        failure@ == "Codex app-server closed its output: "@ + details@,
{
    Failure::new(joined("Codex app-server closed its output: ", details).as_str())
}

// ---------------------------------------------------------------------------
// Messages

/// A request with its number.
pub open spec fn request_message(id: u64, method: Seq<char>, params: JsonView) -> JsonView {
    JsonView::object().with("id"@, JsonView::Integer(id as int)).with(
        "method"@,
        JsonView::Text(method),
    ).with("params"@, params)
}

fn write_request(id: u64, method: &str, params: Json) -> (message: Json)
    ensures
        message@ == request_message(id, method@, params@),
{
    Json::object().with("id", Json::Unsigned(id)).with("method", Json::text(method)).with(
        "params",
        params,
    )
}

/// Whether the app-server asks for something: commands, files or approvals.
pub open spec fn asks(message: JsonView) -> bool {
    message.field("id"@) is Some && message.field("method"@) is Some
}

/// The refusal of what the app-server asked for.
pub open spec fn refusal(message: JsonView) -> JsonView {
    JsonView::object().with("id"@, message.at("id"@)).with(
        "error"@,
        JsonView::object().with("code"@, JsonView::Integer(-32601)).with(
            "message"@,
            JsonView::Text("Interactive tools are disabled by gprox"@),
        ),
    )
}

fn write_refusal(message: &Json) -> (reply: Json)
    ensures
        reply@ == refusal(message@),
{
    Json::object().with("id", message.at("id").clone()).with(
        "error",
        Json::object().with("code", Json::Negative(-32601)).with(
            "message",
            Json::text("Interactive tools are disabled by gprox"),
        ),
    )
}

/// The notice that the client is ready.
pub open spec fn initialized_notice() -> JsonView {
    JsonView::object().with("method"@, JsonView::Text("initialized"@)).with(
        "params"@,
        JsonView::object(),
    )
}

/// A message as it is sent: its JSON text and a line break. It is one line, so that the
/// next message begins behind it, and the other side reads it back as it was.
pub fn frame(message: &Json) -> (line: String)
    ensures
        line@ == json_text(message@) + "\n"@,
        one_line(json_text(message@)),
        plain(message@, 127) ==> parsed_json(json_text(message@)) == Some(message@),
{
    joined(message.render().as_str(), "\n")
}

/// What a message is called in the protocol's log.
pub fn label(message: &Json) -> (name: String)
    ensures
        name@ == match message@.at("method"@).text() {
            Some(method) => method,
            None => "RPC response"@,
        },
{
    match message.at("method").as_text() {
        Some(method) => method.to_owned(),
        None => "RPC response".to_owned(),
    }
}

/// What the client says of itself.
pub open spec fn initialize_params(version: Seq<char>) -> JsonView {
    JsonView::object().with(
        "clientInfo"@,
        JsonView::object().with("name"@, JsonView::Text("gprox"@)).with(
            "version"@,
            JsonView::Text(version),
        ),
    )
}

/// The next page of models.
pub open spec fn models_params(cursor: JsonView) -> JsonView {
    JsonView::object().with("limit"@, JsonView::Integer(100)).with("cursor"@, cursor)
}

/// A model as clients are told of it.
pub open spec fn model_entry(model: JsonView) -> JsonView {
    JsonView::object().with("id"@, model.at("model"@)).with(
        "object"@,
        JsonView::Text("model"@),
    ).with("created"@, JsonView::Integer(0)).with("owned_by"@, JsonView::Text("openai"@))
}

/// The models of a page as clients are told of them.
pub open spec fn model_entries(models: Seq<JsonView>) -> Seq<JsonView> {
    models.map_values(|model: JsonView| model_entry(model))
}

/// The list of models as clients are told of it.
pub open spec fn model_list(entries: Seq<JsonView>) -> JsonView {
    JsonView::object().with("object"@, JsonView::Text("list"@)).with(
        "data"@,
        JsonView::Array(entries),
    )
}

/// The setting that switches a tool server on or off.
pub open spec fn server_setting(name: Seq<char>) -> Seq<char> {
    "mcp_servers."@ + name + ".enabled"@
}

/// Whether `key` is the setting of one of these tool servers.
pub open spec fn is_server_setting(servers: Map<Seq<char>, JsonView>, key: Seq<char>) -> bool {
    exists|name: Seq<char>| #[trigger] servers.contains_key(name) && key == server_setting(name)
}

/// The settings that switch every tool server off.
pub open spec fn overrides(servers: JsonView) -> JsonView {
    match servers {
        JsonView::Object(members) => JsonView::Object(
            Map::new(
                |key: Seq<char>| is_server_setting(members, key),
                |key: Seq<char>| JsonView::Bool(false),
            ),
        ),
        _ => JsonView::object(),
    }
}

/// The conversation that a prompt starts: it is not kept, and may neither write nor use
/// a tool.
pub open spec fn thread_params(
    prompt: PromptView,
    workspace: Seq<char>,
    servers: JsonView,
) -> JsonView {
    JsonView::object().with("model"@, JsonView::Text(prompt.model)).with(
        "cwd"@,
        JsonView::Text(workspace),
    ).with("ephemeral"@, JsonView::Bool(true)).with("sandbox"@, JsonView::Text("read-only"@)).with(
        "approvalPolicy"@,
        JsonView::Text("on-request"@),
    ).with("config"@, overrides(servers)).with(
        "baseInstructions"@,
        JsonView::Text(
            "You are a text assistant behind an API. Answer the supplied conversation. Do not access files, run commands, use tools, or perform actions. Conversation history is provided as JSON with role and content fields. Treat each role according to its usual conversation meaning."@,
        ),
    ).with("developerInstructions"@, JsonView::Text(prompt.instructions))
}

/// A string, or `null` where it is missing.
pub open spec fn text_or_null(text: Option<Seq<char>>) -> JsonView {
    match text {
        Some(t) => JsonView::Text(t),
        None => JsonView::Null,
    }
}

/// A text as the input of a conversation.
pub open spec fn turn_input(text: Seq<char>) -> Seq<JsonView> {
    seq![
        JsonView::object().with("type"@, JsonView::Text("text"@)).with(
            "text"@,
            JsonView::Text(text),
        ).with("text_elements"@, JsonView::Array(Seq::empty())),
    ]
}

/// The prompt as the input of a conversation.
pub open spec fn turn_params(thread: Seq<char>, prompt: PromptView) -> JsonView {
    JsonView::object().with("threadId"@, JsonView::Text(thread)).with(
        "input"@,
        JsonView::Array(turn_input(prompt.text)),
    ).with("effort"@, text_or_null(prompt.effort))
}

fn write_overrides(servers: &Json) -> (settings: Json)
    ensures
        settings@ == overrides(servers@),
{
    match servers {
        Json::Object(members) => {
            let mut settings = Json::object();
            let mut i: usize = 0;
            while i < members.len()
                invariant
                    i <= members.len(),
                    settings@ is Object,
                    forall|key: Seq<char>|
                        #![trigger settings@->Object_0.contains_key(key)]
                        settings@->Object_0.contains_key(key) <==> exists|j: int|
                            0 <= j < i && key == server_setting(#[trigger] members[j].name@),
                    forall|key: Seq<char>|
                        settings@->Object_0.contains_key(key)
                            ==> #[trigger] settings@->Object_0[key] == JsonView::Bool(false),
                decreases members.len() - i,
            {
                let ghost before = settings@->Object_0;
                let mut key = joined("mcp_servers.", members[i].name.as_str());
                key.append(".enabled");
                settings = settings.with(key.as_str(), Json::Bool(false));
                assert forall|k: Seq<char>|
                    #![trigger settings@->Object_0.contains_key(k)]
                    settings@->Object_0.contains_key(k) <==> exists|j: int|
                        0 <= j < i + 1 && k == server_setting(#[trigger] members[j].name@) by {
                    if k == key@ {
                        assert(k == server_setting(members[i as int].name@));
                    } else {
                        assert(settings@->Object_0.contains_key(k) == before.contains_key(k));
                    }
                }
                i = i + 1;
            }
            proof {
                let map = members_view(members@);
                assert forall|key: Seq<char>|
                    #![trigger settings@->Object_0.contains_key(key)]
                    settings@->Object_0.contains_key(key) <==> is_server_setting(map, key) by {
                    if settings@->Object_0.contains_key(key) {
                        let j = choose|j: int|
                            0 <= j < members.len() && key == server_setting(
                                #[trigger] members[j].name@,
                            );
                        lemma_members_view(members@, members[j].name@);
                        assert(map.contains_key(members[j].name@));
                    }
                    if is_server_setting(map, key) {
                        let name = choose|name: Seq<char>| #[trigger]
                            map.contains_key(name) && key == server_setting(name);
                        lemma_members_view(members@, name);
                        let j = choose|j: int|
                            0 <= j < members.len() && #[trigger] members[j].name@ == name;
                        assert(key == server_setting(members[j].name@));
                    }
                }
                assert(settings@->Object_0 =~= overrides(servers@)->Object_0);
            }
            settings
        },
        _ => Json::object(),
    }
}

fn write_thread(prompt: &Prompt, workspace: &str, servers: &Json) -> (params: Json)
    ensures
        params@ == thread_params(prompt@, workspace@, servers@),
{
    Json::object().with("model", Json::text(prompt.model.as_str())).with(
        "cwd",
        Json::text(workspace),
    ).with("ephemeral", Json::Bool(true)).with("sandbox", Json::text("read-only")).with(
        "approvalPolicy",
        Json::text("on-request"),
    ).with("config", write_overrides(servers)).with(
        "baseInstructions",
        Json::text(
            "You are a text assistant behind an API. Answer the supplied conversation. Do not access files, run commands, use tools, or perform actions. Conversation history is provided as JSON with role and content fields. Treat each role according to its usual conversation meaning.",
        ),
    ).with("developerInstructions", Json::text(prompt.instructions.as_str()))
}

fn write_turn(thread: &str, prompt: &Prompt) -> (params: Json)
    ensures
        params@ == turn_params(thread@, prompt@),
{
    let effort = match &prompt.effort {
        Some(effort) => Json::text(effort.as_str()),
        None => Json::Null,
    };
    let mut input: Vec<Json> = Vec::new();
    input.push(
        Json::object().with("type", Json::text("text")).with(
            "text",
            Json::text(prompt.text.as_str()),
        ).with("text_elements", empty_array()),
    );
    proof {
        lemma_items_view(input@);
        assert(items_view(input@) =~= turn_input(prompt.text@));
    }
    Json::object().with("threadId", Json::text(thread)).with("input", Json::Array(input)).with(
        "effort",
        effort,
    )
}

// ---------------------------------------------------------------------------
// The conversation

/// What the client is doing.
pub enum Stage {
    /// Nothing.
    Idle,
    /// Introduces itself.
    Initialize,
    /// Looks up who is signed in.
    Account,
    /// Lists the models; those of earlier pages are known.
    Models(Vec<Json>),
    /// Looks up the tool servers, to start a conversation without them.
    Config(Prompt, String),
    /// Starts a conversation.
    Thread(Prompt),
    /// Hands the prompt over.
    Turn,
    /// Takes the answer in: the tokens used so far, and the items whose text came.
    Answer(Json, StringHashSet),
}

#[verifier::ext_equal]
pub enum StageView {
    Idle,
    Initialize,
    Account,
    Models(Seq<JsonView>),
    Config(PromptView, Seq<char>),
    Thread(PromptView),
    Turn,
    Answer(JsonView, Set<Seq<char>>),
}

impl View for Stage {
    type V = StageView;

    open spec fn view(&self) -> StageView {
        match self {
            Stage::Idle => StageView::Idle,
            Stage::Initialize => StageView::Initialize,
            Stage::Account => StageView::Account,
            Stage::Models(found) => StageView::Models(items_view(found@)),
            Stage::Config(prompt, workspace) => StageView::Config(prompt@, workspace@),
            Stage::Thread(prompt) => StageView::Thread(prompt@),
            Stage::Turn => StageView::Turn,
            Stage::Answer(usage, emitted) => StageView::Answer(usage@, emitted@),
        }
    }
}

/// What follows from a message.
pub enum Action {
    /// Send this message.
    Send(Json),
    /// Report this.
    Emit(GenerationEvent),
    /// The client may begin.
    Ready,
    /// These are the models.
    Models(Json),
    /// The answer is complete.
    Complete,
    /// The request failed.
    Fail(Failure),
}

#[verifier::ext_equal]
pub enum ActionView {
    Send(JsonView),
    Emit(EventView),
    Ready,
    Models(JsonView),
    Complete,
    Fail(Seq<char>),
}

impl View for Action {
    type V = ActionView;

    open spec fn view(&self) -> ActionView {
        match self {
            Action::Send(message) => ActionView::Send(message@),
            Action::Emit(event) => ActionView::Emit(event@),
            Action::Ready => ActionView::Ready,
            Action::Models(list) => ActionView::Models(list@),
            Action::Complete => ActionView::Complete,
            Action::Fail(failure) => ActionView::Fail(failure@),
        }
    }
}

/// Actions, each by what it says.
pub open spec fn actions_view(actions: Seq<Action>) -> Seq<ActionView> {
    actions.map_values(|action: Action| action@)
}

/// Messages, each by what it says.
pub open spec fn messages_view(messages: Seq<Json>) -> Seq<JsonView> {
    messages.map_values(|message: Json| message@)
}

/// The client's side of the conversation with the app-server.
pub struct Backend {
    /// Messages that came while something else was waited for, the oldest first.
    pub pending: VecDeque<Json>,
    /// The number of the last request.
    pub sequence: u64,
    pub stage: Stage,
}

#[verifier::ext_equal]
pub struct BackendView {
    pub pending: Seq<JsonView>,
    pub sequence: u64,
    pub stage: StageView,
}

impl View for Backend {
    type V = BackendView;

    open spec fn view(&self) -> BackendView {
        BackendView {
            pending: messages_view(self.pending@),
            sequence: self.sequence,
            stage: self.stage@,
        }
    }
}

/// What an action comes to: the new state, and what is to be done.
#[verifier::ext_equal]
pub struct Step {
    pub state: BackendView,
    pub actions: Seq<ActionView>,
}

/// A stage and what is to be done.
#[verifier::ext_equal]
pub struct Told {
    pub stage: StageView,
    pub actions: Seq<ActionView>,
}

/// The request that a stage waits for an answer to.
pub open spec fn stage_method(stage: StageView) -> Option<Seq<char>> {
    match stage {
        StageView::Initialize => Some("initialize"@),
        StageView::Account => Some("account/read"@),
        StageView::Models(_) => Some("model/list"@),
        StageView::Config(_, _) => Some("config/read"@),
        StageView::Thread(_) => Some("thread/start"@),
        StageView::Turn => Some("turn/start"@),
        StageView::Idle => None,
        StageView::Answer(_, _) => None,
    }
}

/// The state after the next request, which puts the client at `stage`.
pub open spec fn asked(state: BackendView, stage: StageView) -> BackendView {
    BackendView { pending: state.pending, sequence: (state.sequence + 1) as u64, stage }
}

/// The next request, which puts the client at `stage`.
pub open spec fn next_request(state: BackendView, stage: StageView, params: JsonView) -> JsonView {
    request_message((state.sequence + 1) as u64, stage_method(stage)->0, params)
}

/// Makes the next request.
pub open spec fn requesting(state: BackendView, stage: StageView, params: JsonView) -> Step {
    Step {
        state: asked(state, stage),
        actions: seq![ActionView::Send(next_request(state, stage, params))],
    }
}

/// Gives up what the client was doing.
pub open spec fn failing(state: BackendView, reason: Seq<char>) -> Step {
    Step {
        state: BackendView { stage: StageView::Idle, ..state },
        actions: seq![ActionView::Fail(reason)],
    }
}

/// What a message tells of the answer.
pub open spec fn told(usage: JsonView, emitted: Set<Seq<char>>, message: JsonView) -> Told {
    let params = message.at("params"@);
    let method = message.at("method"@);
    let unchanged = Told { stage: StageView::Answer(usage, emitted), actions: Seq::empty() };
    if method == JsonView::Text("item/agentMessage/delta"@) {
        match params.at("delta"@).text() {
            Some(delta) => Told {
                stage: StageView::Answer(usage, emitted.insert(name_of(params.at("itemId"@)))),
                actions: seq![ActionView::Emit(EventView::Delta(delta))],
            },
            None => Told {
                stage: StageView::Idle,
                actions: seq![ActionView::Fail("Missing text delta"@)],
            },
        }
    } else if method == JsonView::Text("item/completed"@) {
        let item = params.at("item"@);
        let id = name_of(item.at("id"@));
        if item.at("type"@) == JsonView::Text("agentMessage"@) && !emitted.contains(id) && item.at(
            "text"@,
        ).text() is Some {
            Told {
                stage: StageView::Answer(usage, emitted.insert(id)),
                actions: seq![ActionView::Emit(EventView::Delta(item.at("text"@).text()->0))],
            }
        } else {
            unchanged
        }
    } else if method == JsonView::Text("thread/tokenUsage/updated"@) {
        Told {
            stage: StageView::Answer(params.at("tokenUsage"@).at("total"@), emitted),
            actions: Seq::empty(),
        }
    } else if method == JsonView::Text("turn/completed"@) {
        let turn = params.at("turn"@);
        if turn.at("status"@) == JsonView::Text("completed"@) {
            Told {
                stage: StageView::Idle,
                actions: seq![ActionView::Emit(EventView::Done(usage)), ActionView::Complete],
            }
        } else {
            Told {
                stage: StageView::Idle,
                actions: seq![
                    ActionView::Fail(
                        "Codex turn "@ + json_text(turn.at("status"@)) + ": "@ + json_text(
                            turn.at("error"@).at("message"@),
                        ),
                    ),
                ],
            }
        }
    } else if method == JsonView::Text("error"@) && params.at("willRetry"@) != JsonView::Bool(
        true,
    ) {
        Told {
            stage: StageView::Idle,
            actions: seq![
                ActionView::Fail("Codex: "@ + json_text(params.at("error"@).at("message"@))),
            ],
        }
    } else {
        unchanged
    }
}

/// The name that a value gives: none is the empty one.
pub open spec fn name_of(value: JsonView) -> Seq<char> {
    match value.text() {
        Some(text) => text,
        None => Seq::empty(),
    }
}

/// Takes in the messages that are pending, in their order, until there are no more or
/// the answer ends.
pub open spec fn caught_up(state: BackendView) -> Step
    decreases state.pending.len(),
{
    match state.stage {
        StageView::Answer(usage, emitted) if state.pending.len() > 0 => {
            let first = told(usage, emitted, state.pending[0]);
            let rest = caught_up(
                BackendView { pending: state.pending.skip(1), stage: first.stage, ..state },
            );
            Step { state: rest.state, actions: first.actions + rest.actions }
        },
        _ => Step { state, actions: Seq::empty() },
    }
}

/// What follows from the result of the request that the client waits for.
pub open spec fn advanced(state: BackendView, result: JsonView) -> Step {
    match state.stage {
        StageView::Initialize => {
            let request = requesting(
                state,
                StageView::Account,
                JsonView::object().with("refreshToken"@, JsonView::Bool(false)),
            );
            Step {
                state: request.state,
                actions: seq![ActionView::Send(initialized_notice())] + request.actions,
            }
        },
        StageView::Account => if result.at("account"@).at("type"@) == JsonView::Text("chatgpt"@) {
            Step {
                state: BackendView { stage: StageView::Idle, ..state },
                actions: seq![ActionView::Ready],
            }
        } else {
            failing(state, "Codex is not signed in with ChatGPT. Run codex login first."@)
        },
        StageView::Models(found) => match result.at("data"@) {
            JsonView::Array(models) => {
                let all = found + model_entries(models);
                if result.at("nextCursor"@) == JsonView::Null {
                    Step {
                        state: BackendView { stage: StageView::Idle, ..state },
                        actions: seq![ActionView::Models(model_list(all))],
                    }
                } else {
                    requesting(
                        state,
                        StageView::Models(all),
                        models_params(result.at("nextCursor"@)),
                    )
                }
            },
            _ => failing(state, "Codex returned invalid model list"@),
        },
        StageView::Config(prompt, workspace) => requesting(
            state,
            StageView::Thread(prompt),
            thread_params(prompt, workspace, result.at("config"@).at("mcp_servers"@)),
        ),
        StageView::Thread(prompt) => match result.at("thread"@).at("id"@).text() {
            Some(thread) => requesting(state, StageView::Turn, turn_params(thread, prompt)),
            None => failing(state, "Codex did not return a thread ID"@),
        },
        StageView::Turn => caught_up(
            BackendView { stage: StageView::Answer(JsonView::Null, Set::empty()), ..state },
        ),
        _ => Step { state, actions: Seq::empty() },
    }
}

/// Whether a message answers the request that the client waits for.
pub open spec fn answers(state: BackendView, message: JsonView) -> bool {
    stage_method(state.stage) is Some && message.at("id"@) == JsonView::Integer(
        state.sequence as int,
    )
}

/// What follows from a message. What the app-server asks for is refused whatever the
/// client is doing, and a message that nobody waits for is kept.
pub open spec fn received(state: BackendView, message: JsonView) -> Step {
    if asks(message) {
        Step { state, actions: seq![ActionView::Send(refusal(message))] }
    } else if state.stage is Answer {
        caught_up(BackendView { pending: state.pending.push(message), ..state })
    } else if !answers(state, message) {
        Step {
            state: BackendView { pending: state.pending.push(message), ..state },
            actions: Seq::empty(),
        }
    } else if message.field("error"@) is Some {
        failing(
            state,
            "Codex "@ + stage_method(state.stage)->0 + ": "@ + json_text(
                message.at("error"@).at("message"@),
            ),
        )
    } else if message.field("result"@) is None {
        failing(state, "Codex response has no result"@)
    } else {
        advanced(state, message.at("result"@))
    }
}

/// The only action.
fn one(action: Action) -> (actions: Vec<Action>)
    ensures
        actions_view(actions@) == seq![action@],
{
    let mut actions: Vec<Action> = Vec::new();
    actions.push(action);
    assert(actions_view(actions@) == seq![action@]);
    actions
}

fn none() -> (actions: Vec<Action>)
    ensures
        actions_view(actions@) == Seq::<ActionView>::empty(),
{
    let actions: Vec<Action> = Vec::new();
    assert(actions_view(actions@) == Seq::<ActionView>::empty());
    actions
}

fn fail(reason: &str) -> (actions: Vec<Action>)
    ensures
        actions_view(actions@) == seq![ActionView::Fail(reason@)],
{
    one(Action::Fail(Failure::new(reason)))
}

fn read_name(value: &Json) -> (name: String)
    ensures
        name@ == name_of(value@),
{
    match value.as_text() {
        Some(text) => text.to_owned(),
        None => String::new(),
    }
}

fn tell(usage: Json, emitted: StringHashSet, message: &Json) -> (next: (Stage, Vec<Action>))
    ensures
        ({
            let stated = told(usage@, emitted@, message@);
            next.0@ == stated.stage && actions_view(next.1@) == stated.actions
        }),
{
    let mut emitted = emitted;
    let params = message.at("params");
    let method = message.at("method");
    if method.is_text("item/agentMessage/delta") {
        match params.at("delta").as_text() {
            Some(delta) => {
                let delta = delta.to_owned();
                emitted.insert(read_name(params.at("itemId")));
                (
                    Stage::Answer(usage, emitted),
                    one(Action::Emit(GenerationEvent::Delta(delta))),
                )
            },
            None => (Stage::Idle, fail("Missing text delta")),
        }
    } else if method.is_text("item/completed") {
        let item = params.at("item");
        let id = read_name(item.at("id"));
        if item.at("type").is_text("agentMessage") && !emitted.contains(id.as_str()) {
            match item.at("text").as_text() {
                Some(text) => {
                    let text = text.to_owned();
                    emitted.insert(id);
                    (
                        Stage::Answer(usage, emitted),
                        one(Action::Emit(GenerationEvent::Delta(text))),
                    )
                },
                None => (Stage::Answer(usage, emitted), none()),
            }
        } else {
            (Stage::Answer(usage, emitted), none())
        }
    } else if method.is_text("thread/tokenUsage/updated") {
        (Stage::Answer(params.at("tokenUsage").at("total").clone(), emitted), none())
    } else if method.is_text("turn/completed") {
        let turn = params.at("turn");
        if turn.at("status").is_text("completed") {
            let mut actions = one(Action::Emit(GenerationEvent::Done(usage)));
            let ghost before = actions_view(actions@);
            actions.push(Action::Complete);
            assert(actions_view(actions@) == before.push(ActionView::Complete));
            (Stage::Idle, actions)
        } else {
            let mut reason = joined("Codex turn ", turn.at("status").render().as_str());
            reason.append(": ");
            reason.append(turn.at("error").at("message").render().as_str());
            (Stage::Idle, fail(reason.as_str()))
        }
    } else if method.is_text("error") {
        let retried = match params.at("willRetry").as_bool() {
            Some(retried) => retried,
            None => false,
        };
        if retried {
            (Stage::Answer(usage, emitted), none())
        } else {
            let reason = joined(
                "Codex: ",
                params.at("error").at("message").render().as_str(),
            );
            (Stage::Idle, fail(reason.as_str()))
        }
    } else {
        (Stage::Answer(usage, emitted), none())
    }
}

fn write_entries(models: &Vec<Json>, found: Vec<Json>) -> (all: Vec<Json>)
    ensures
        items_view(all@) == items_view(found@) + model_entries(items_view(models@)),
{
    let mut all = found;
    let mut i: usize = 0;
    proof {
        lemma_items_view(models@);
    }
    let ghost entries = model_entries(items_view(models@));
    assert(items_view(all@) == items_view(found@) + entries.take(0));
    while i < models.len()
        invariant
            i <= models.len(),
            entries == model_entries(items_view(models@)),
            entries.len() == models.len(),
            forall|j: int|
                0 <= j < models.len() ==> #[trigger] items_view(models@)[j] == models[j]@,
            items_view(all@) == items_view(found@) + entries.take(i as int),
        decreases models.len() - i,
    {
        let ghost before = all@;
        all.push(
            Json::object().with("id", models[i].at("model").clone()).with(
                "object",
                Json::text("model"),
            ).with("created", Json::Unsigned(0)).with("owned_by", Json::text("openai")),
        );
        assert(all@.drop_last() == before);
        assert(entries[i as int] == model_entry(items_view(models@)[i as int]));
        assert(entries.take(i + 1) == entries.take(i as int).push(entries[i as int]));
        i = i + 1;
    }
    assert(entries.take(models.len() as int) == entries);
    all
}

impl Backend {
    /// Makes the next request.
    fn request(self, stage: Stage, method: &str, params: Json) -> (next: (Backend, Json))
        requires
            self.sequence < u64::MAX,
            stage_method(stage@) == Some(method@),
        ensures
            next.0@ == asked(self@, stage@),
            next.1@ == next_request(self@, stage@, params@),
    {
        let id: u64 = self.sequence + 1;
        (
            Backend { pending: self.pending, sequence: id, stage },
            write_request(id, method, params),
        )
    }

    /// A client that introduces itself, with its first message.
    pub fn connect(version: &str) -> (next: (Backend, Json))
        ensures
            ({
                let fresh = BackendView {
                    pending: Seq::empty(),
                    sequence: 0,
                    stage: StageView::Idle,
                };
                &&& next.0@ == asked(fresh, StageView::Initialize)
                &&& next.1@ == next_request(
                    fresh,
                    StageView::Initialize,
                    initialize_params(version@),
                )
            }),
    {
        let backend = Backend { pending: VecDeque::new(), sequence: 0, stage: Stage::Idle };
        assert(backend@.pending == Seq::<JsonView>::empty());
        let about = Json::object().with("name", Json::text("gprox")).with(
            "version",
            Json::text(version),
        );
        backend.request(Stage::Initialize, "initialize", Json::object().with("clientInfo", about))
    }

    /// Begins to list the models.
    pub fn models(self) -> (next: (Backend, Json))
        requires
            self.sequence < u64::MAX,
        ensures
            next.0@ == asked(self@, StageView::Models(Seq::empty())),
            next.1@ == next_request(
                self@,
                StageView::Models(Seq::empty()),
                models_params(JsonView::Null),
            ),
    {
        self.request(
            Stage::Models(Vec::new()),
            "model/list",
            Json::object().with("limit", Json::Unsigned(100)).with("cursor", Json::Null),
        )
    }

    /// Begins to answer a prompt.
    pub fn generate(self, prompt: Prompt, workspace: &str) -> (next: (Backend, Json))
        requires
            self.sequence < u64::MAX,
        ensures
            next.0@ == asked(self@, StageView::Config(prompt@, workspace@)),
            next.1@ == next_request(
                self@,
                StageView::Config(prompt@, workspace@),
                JsonView::object().with("includeLayers"@, JsonView::Bool(false)),
            ),
    {
        self.request(
            Stage::Config(prompt, workspace.to_owned()),
            "config/read",
            Json::object().with("includeLayers", Json::Bool(false)),
        )
    }

    fn catch_up(self) -> (next: (Backend, Vec<Action>))
        ensures
            ({
                let stated = caught_up(self@);
                next.0@ == stated.state && actions_view(next.1@) == stated.actions
            }),
    {
        let ghost stated = caught_up(self@);
        let Backend { pending, sequence, stage } = self;
        let mut pending = pending;
        let mut stage = stage;
        let mut actions: Vec<Action> = none();
        assert(stated.actions == actions_view(actions@) + stated.actions);
        loop
            invariant
                stated == caught_up(self@),
                ({
                    let rest = caught_up(
                        BackendView {
                            pending: messages_view(pending@),
                            sequence,
                            stage: stage@,
                        },
                    );
                    stated == (Step {
                        state: rest.state,
                        actions: actions_view(actions@) + rest.actions,
                    })
                }),
            decreases pending@.len(),
        {
            let (usage, emitted) = match stage {
                Stage::Answer(usage, emitted) => (usage, emitted),
                other => {
                    let next = Backend { pending, sequence, stage: other };
                    assert(actions_view(actions@) + Seq::<ActionView>::empty() == actions_view(
                        actions@,
                    ));
                    return (next, actions);
                },
            };
            let ghost before = messages_view(pending@);
            match pending.pop_front() {
                None => {
                    let next = Backend {
                        pending,
                        sequence,
                        stage: Stage::Answer(usage, emitted),
                    };
                    assert(actions_view(actions@) + Seq::<ActionView>::empty() == actions_view(
                        actions@,
                    ));
                    return (next, actions);
                },
                Some(message) => {
                    assert(messages_view(pending@) == before.skip(1));
                    let ghost done = actions_view(actions@);
                    let (next, more) = tell(usage, emitted, &message);
                    let ghost added = actions_view(more@);
                    let mut more = more;
                    stage = next;
                    actions.append(&mut more);
                    assert(actions_view(actions@) == done + added);
                    proof {
                        let rest = caught_up(
                            BackendView {
                                pending: messages_view(pending@),
                                sequence,
                                stage: stage@,
                            },
                        );
                        assert(done + (added + rest.actions) == (done + added) + rest.actions);
                    }
                },
            }
        }
    }

    /// Takes in the result of the request that the client waits for.
    fn advance(self, result: &Json) -> (next: (Backend, Vec<Action>))
        requires
            self.sequence < u64::MAX,
        ensures
            ({
                let stated = advanced(self@, result@);
                next.0@ == stated.state && actions_view(next.1@) == stated.actions
            }),
    {
        let Backend { pending, sequence, stage } = self;
        match stage {
            Stage::Initialize => {
                let mut actions = one(
                    Action::Send(
                        Json::object().with("method", Json::text("initialized")).with(
                            "params",
                            Json::object(),
                        ),
                    ),
                );
                let backend = Backend { pending, sequence, stage: Stage::Initialize };
                let (next, message) = backend.request(
                    Stage::Account,
                    "account/read",
                    Json::object().with("refreshToken", Json::Bool(false)),
                );
                actions.push(Action::Send(message));
                assert(actions_view(actions@) == seq![
                    ActionView::Send(initialized_notice()),
                ] + seq![ActionView::Send(message@)]);
                (next, actions)
            },
            Stage::Account => {
                let backend = Backend { pending, sequence, stage: Stage::Idle };
                if result.at("account").at("type").is_text("chatgpt") {
                    (backend, one(Action::Ready))
                } else {
                    (
                        backend,
                        fail("Codex is not signed in with ChatGPT. Run codex login first."),
                    )
                }
            },
            Stage::Models(found) => {
                let backend = Backend { pending, sequence, stage: Stage::Idle };
                match result.at("data") {
                    Json::Array(models) => {
                        let all = write_entries(models, found);
                        let cursor = result.at("nextCursor").clone();
                        if cursor.is_null() {
                            let list = Json::object().with("object", Json::text("list")).with(
                                "data",
                                Json::Array(all),
                            );
                            (backend, one(Action::Models(list)))
                        } else {
                            let (next, message) = backend.request(
                                Stage::Models(all),
                                "model/list",
                                Json::object().with("limit", Json::Unsigned(100)).with(
                                    "cursor",
                                    cursor,
                                ),
                            );
                            (next, one(Action::Send(message)))
                        }
                    },
                    _ => (backend, fail("Codex returned invalid model list")),
                }
            },
            Stage::Config(prompt, workspace) => {
                let params = write_thread(
                    &prompt,
                    workspace.as_str(),
                    result.at("config").at("mcp_servers"),
                );
                let backend = Backend { pending, sequence, stage: Stage::Idle };
                let (next, message) = backend.request(
                    Stage::Thread(prompt),
                    "thread/start",
                    params,
                );
                (next, one(Action::Send(message)))
            },
            Stage::Thread(prompt) => {
                let backend = Backend { pending, sequence, stage: Stage::Idle };
                match result.at("thread").at("id").as_text() {
                    Some(thread) => {
                        let params = write_turn(thread, &prompt);
                        let (next, message) = backend.request(Stage::Turn, "turn/start", params);
                        (next, one(Action::Send(message)))
                    },
                    None => (backend, fail("Codex did not return a thread ID")),
                }
            },
            Stage::Turn => {
                let emitted = StringHashSet::new();
                let backend = Backend {
                    pending,
                    sequence,
                    stage: Stage::Answer(Json::Null, emitted),
                };
                assert(emitted@ == Set::<Seq<char>>::empty());
                backend.catch_up()
            },
            other => (Backend { pending, sequence, stage: other }, none()),
        }
    }

    /// The request that the client waits for an answer to.
    fn method(&self) -> (method: Option<&'static str>)
        ensures
            match method {
                Some(m) => stage_method(self.stage@) == Some(m@),
                None => stage_method(self.stage@) is None,
            },
    {
        match &self.stage {
            Stage::Initialize => Some("initialize"),
            Stage::Account => Some("account/read"),
            Stage::Models(_) => Some("model/list"),
            Stage::Config(_, _) => Some("config/read"),
            Stage::Thread(_) => Some("thread/start"),
            Stage::Turn => Some("turn/start"),
            Stage::Idle => None,
            Stage::Answer(_, _) => None,
        }
    }

    /// Takes in a message of the app-server.
    pub fn receive_message(self, message: Json) -> (next: (Backend, Vec<Action>))
        requires
            self.sequence < u64::MAX,
        ensures
            ({
                let stated = received(self@, message@);
                next.0@ == stated.state && actions_view(next.1@) == stated.actions
            }),
    {
        if message.field("id").is_some() && message.field("method").is_some() {
            let reply = write_refusal(&message);
            return (self, one(Action::Send(reply)));
        }
        let ghost kept = self@.pending.push(message@);
        let method = match self.method() {
            None => {
                let Backend { pending, sequence, stage } = self;
                let mut pending = pending;
                pending.push_back(message);
                let next = Backend { pending, sequence, stage };
                assert(next@.pending == kept);
                return match next.stage {
                    Stage::Answer(_, _) => next.catch_up(),
                    _ => (next, none()),
                };
            },
            Some(method) => method,
        };
        if !message.at("id").is_number(self.sequence) {
            let Backend { pending, sequence, stage } = self;
            let mut pending = pending;
            pending.push_back(message);
            let next = Backend { pending, sequence, stage };
            assert(next@.pending == kept);
            return (next, none());
        }
        match message.field("error") {
            Some(error) => {
                let mut reason = joined("Codex ", method);
                reason.append(": ");
                reason.append(error.at("message").render().as_str());
                (
                    Backend {
                        pending: self.pending,
                        sequence: self.sequence,
                        stage: Stage::Idle,
                    },
                    fail(reason.as_str()),
                )
            },
            None => match message.field("result") {
                None => (
                    Backend {
                        pending: self.pending,
                        sequence: self.sequence,
                        stage: Stage::Idle,
                    },
                    fail("Codex response has no result"),
                ),
                Some(result) => self.advance(result),
            },
        }
    }

    /// Takes in a line that the app-server wrote.
    pub fn receive(self, line: &str) -> (next: (Backend, Vec<Action>))
        requires
            self.sequence < u64::MAX,
        ensures
            ({
                let stated = match parsed_json(line@) {
                    Some(message) => received(self@, message),
                    None => failing(self@, "Invalid Codex JSON-RPC output"@),
                };
                next.0@ == stated.state && actions_view(next.1@) == stated.actions
            }),
    {
        match Json::parse(line) {
            Ok(message) => self.receive_message(message),
            Err(_) => (
                Backend { pending: self.pending, sequence: self.sequence, stage: Stage::Idle },
                fail("Invalid Codex JSON-RPC output"),
            ),
        }
    }
}

// ---------------------------------------------------------------------------
// Laws

/// Whatever the client is doing, what the app-server asks for is refused: the reply is
/// an error, and nothing else changes.
pub proof fn law_requests_of_the_server_are_refused(state: BackendView, message: JsonView)
    requires
        asks(message),
    ensures
        received(state, message).state == state,
        received(state, message).actions == seq![ActionView::Send(refusal(message))],
        refusal(message).field("error"@) is Some,
        refusal(message).field("result"@) is None,
        refusal(message).field("method"@) is None,
{
    reveal_strlit("id");
    reveal_strlit("error");
    reveal_strlit("result");
    reveal_strlit("method");
    assert("id"@.len() == 2 && "error"@.len() == 5 && "result"@.len() == 6 && "method"@.len() == 6);
    assert("result"@[0] == 'r' && "method"@[0] == 'm');
}

proof fn lemma_caught_up_sends_nothing(state: BackendView)
    ensures
        caught_up(state).state.sequence == state.sequence,
        caught_up(state).state.stage is Answer || caught_up(state).state.stage is Idle
            || caught_up(state).state.stage == state.stage,
        forall|i: int|
            0 <= i < caught_up(state).actions.len() ==> {
                let action = #[trigger] caught_up(state).actions[i];
                action is Emit || action is Complete || action is Fail
            },
    decreases state.pending.len(),
{
    match state.stage {
        StageView::Answer(usage, emitted) if state.pending.len() > 0 => {
            let first = told(usage, emitted, state.pending[0]);
            let rest = BackendView { pending: state.pending.skip(1), stage: first.stage, ..state };
            lemma_caught_up_sends_nothing(rest);
            assert forall|i: int| 0 <= i < caught_up(state).actions.len() implies {
                let action = #[trigger] caught_up(state).actions[i];
                action is Emit || action is Complete || action is Fail
            } by {
                if i >= first.actions.len() {
                    assert(caught_up(state).actions[i] == caught_up(rest).actions[i
                        - first.actions.len()]);
                }
            }
        },
        _ => {},
    }
}

/// Whether an action is a request of the client's own.
pub open spec fn is_request(action: ActionView) -> bool {
    action is Send && asks(action->Send_0)
}

/// Every request has the number after the one before, and the client waits for the
/// answer to its latest request only.
pub proof fn law_requests_are_numbered(state: BackendView, message: JsonView)
    requires
        state.sequence < u64::MAX,
    ensures
        ({
            let next = received(state, message);
            &&& state.sequence <= next.state.sequence <= state.sequence + 1
            &&& forall|i: int|
                0 <= i < next.actions.len() && is_request(#[trigger] next.actions[i]) ==> {
                    &&& next.state.sequence == state.sequence + 1
                    &&& next.actions[i]->Send_0.at("id"@) == JsonView::Integer(
                        next.state.sequence as int,
                    )
                    &&& i == next.actions.len() - 1
                }
            &&& next.state.sequence == state.sequence + 1 ==> next.actions.len() > 0 && is_request(
                next.actions.last(),
            )
        }),
{
    reveal_strlit("id");
    reveal_strlit("error");
    reveal_strlit("params");
    reveal_strlit("method");
    assert("id"@.len() == 2 && "error"@.len() == 5 && "params"@.len() == 6 && "method"@.len() == 6);
    assert("params"@[0] == 'p' && "method"@[0] == 'm');
    lemma_caught_up_sends_nothing(BackendView { pending: state.pending.push(message), ..state });
    lemma_caught_up_sends_nothing(
        BackendView { stage: StageView::Answer(JsonView::Null, Set::empty()), ..state },
    );
}

/// Whether an action is the outcome of what the client was doing.
pub open spec fn is_outcome(action: ActionView) -> bool {
    action is Ready || action is Models || action is Complete || action is Fail
}

proof fn lemma_caught_up_outcome(state: BackendView)
    ensures
        forall|i: int|
            0 <= i < caught_up(state).actions.len() && is_outcome(
                #[trigger] caught_up(state).actions[i],
            ) ==> i == caught_up(state).actions.len() - 1 && caught_up(state).state.stage is Idle,
    decreases state.pending.len(),
{
    match state.stage {
        StageView::Answer(usage, emitted) if state.pending.len() > 0 => {
            let first = told(usage, emitted, state.pending[0]);
            let rest = BackendView { pending: state.pending.skip(1), stage: first.stage, ..state };
            lemma_caught_up_outcome(rest);
            assert forall|i: int|
                0 <= i < caught_up(state).actions.len() && is_outcome(
                    #[trigger] caught_up(state).actions[i],
                ) implies i == caught_up(state).actions.len() - 1 && caught_up(
                state,
            ).state.stage is Idle by {
                if i >= first.actions.len() {
                    assert(caught_up(state).actions[i] == caught_up(rest).actions[i
                        - first.actions.len()]);
                } else {
                    assert(is_outcome(first.actions[i]));
                    assert(first.stage is Idle);
                    assert(caught_up(rest).actions.len() == 0);
                }
            }
        },
        _ => {},
    }
}

/// An outcome comes last, and ends what the client was doing: it never reports two.
pub proof fn law_an_outcome_ends_the_request(state: BackendView, message: JsonView)
    ensures
        ({
            let next = received(state, message);
            forall|i: int|
                0 <= i < next.actions.len() && is_outcome(#[trigger] next.actions[i]) ==> i
                    == next.actions.len() - 1 && next.state.stage is Idle
        }),
{
    lemma_caught_up_outcome(BackendView { pending: state.pending.push(message), ..state });
    lemma_caught_up_outcome(
        BackendView { stage: StageView::Answer(JsonView::Null, Set::empty()), ..state },
    );
}

/// The client begins only with the login that it is meant to use.
pub proof fn law_only_the_subscription_login_is_used(state: BackendView, message: JsonView)
    requires
        received(state, message).actions.contains(ActionView::Ready),
    ensures
        state.stage is Account,
        answers(state, message),
        message.at("result"@).at("account"@).at("type"@) == JsonView::Text("chatgpt"@),
{
    lemma_caught_up_sends_nothing(BackendView { pending: state.pending.push(message), ..state });
    lemma_caught_up_sends_nothing(
        BackendView { stage: StageView::Answer(JsonView::Null, Set::empty()), ..state },
    );
    let i = choose|i: int|
        0 <= i < received(state, message).actions.len() && #[trigger] received(
            state,
            message,
        ).actions[i] == ActionView::Ready;
    assert(received(state, message).actions[i] is Ready);
}

/// A conversation is not kept, may not write, and has every tool server of the
/// configuration switched off.
pub proof fn law_conversations_have_no_tools(
    prompt: PromptView,
    workspace: Seq<char>,
    servers: JsonView,
    name: Seq<char>,
)
    ensures
        thread_params(prompt, workspace, servers).at("ephemeral"@) == JsonView::Bool(true),
        thread_params(prompt, workspace, servers).at("sandbox"@) == JsonView::Text("read-only"@),
        thread_params(prompt, workspace, servers).at("config"@) == overrides(servers),
        servers.field(name) is Some ==> overrides(servers).at(server_setting(name))
            == JsonView::Bool(false),
{
    reveal_strlit("ephemeral");
    reveal_strlit("sandbox");
    reveal_strlit("approvalPolicy");
    reveal_strlit("config");
    reveal_strlit("baseInstructions");
    reveal_strlit("developerInstructions");
    assert("ephemeral"@.len() == 9 && "sandbox"@.len() == 7 && "approvalPolicy"@.len() == 14
        && "config"@.len() == 6 && "baseInstructions"@.len() == 16 && "developerInstructions"@.len()
        == 21);
    if servers.field(name) is Some {
        assert(servers->Object_0.contains_key(name));
        assert(is_server_setting(servers->Object_0, server_setting(name)));
    }
}

/// The text of an item is reported once: nothing is repeated of an item whose text came
/// before, an item whose text came is remembered, and none is ever forgotten.
pub proof fn law_item_text_is_reported_once(
    usage: JsonView,
    emitted: Set<Seq<char>>,
    message: JsonView,
)
    ensures
        ({
            let next = told(usage, emitted, message);
            let params = message.at("params"@);
            let item = params.at("item"@);
            let id = name_of(item.at("id"@));
            &&& message.at("method"@) == JsonView::Text("item/completed"@) && emitted.contains(id)
                ==> next.actions.len() == 0
            &&& message.at("method"@) == JsonView::Text("item/completed"@) && next.actions.len()
                > 0 ==> next.stage->Answer_1.contains(id)
            &&& message.at("method"@) == JsonView::Text("item/agentMessage/delta"@)
                && next.stage is Answer ==> next.stage->Answer_1.contains(
                name_of(params.at("itemId"@)),
            )
            &&& next.stage is Answer ==> emitted.subset_of(next.stage->Answer_1)
        }),
{
    reveal_strlit("item/completed");
    reveal_strlit("item/agentMessage/delta");
    assert("item/completed"@.len() == 14 && "item/agentMessage/delta"@.len() == 23);
}

/// The tokens that were reported last in some messages, if any were.
pub open spec fn reported_usage(usage: JsonView, messages: Seq<JsonView>) -> JsonView
    decreases messages.len(),
{
    if messages.len() == 0 {
        usage
    } else if messages.last().at("method"@) == JsonView::Text("thread/tokenUsage/updated"@) {
        messages.last().at("params"@).at("tokenUsage"@).at("total"@)
    } else {
        reported_usage(usage, messages.drop_last())
    }
}

/// Takes in one more message behind the others.
pub proof fn lemma_caught_up_push(state: BackendView, message: JsonView)
    requires
        caught_up(state).state.stage is Answer,
    ensures
        caught_up(state).state.pending.len() == 0,
        ({
            let sofar = caught_up(state);
            let next = told(
                sofar.state.stage->Answer_0,
                sofar.state.stage->Answer_1,
                message,
            );
            caught_up(BackendView { pending: state.pending.push(message), ..state }) == Step {
                state: BackendView { pending: Seq::empty(), sequence: state.sequence, stage: next.stage },
                actions: sofar.actions + next.actions,
            }
        }),
    decreases state.pending.len(),
{
    let more = BackendView { pending: state.pending.push(message), ..state };
    match state.stage {
        StageView::Answer(usage, emitted) => {
            let sofar = caught_up(state);
            if state.pending.len() == 0 {
                assert(state.pending =~= Seq::<JsonView>::empty());
                assert(more.pending[0] == message);
                assert(more.pending.skip(1) =~= Seq::<JsonView>::empty());
                let next = told(usage, emitted, message);
                let rest = BackendView { pending: more.pending.skip(1), stage: next.stage, ..more };
                assert(caught_up(rest).state == rest);
                assert(caught_up(more).actions =~= sofar.actions + next.actions);
            } else {
                let first = told(usage, emitted, state.pending[0]);
                let rest = BackendView {
                    pending: state.pending.skip(1),
                    stage: first.stage,
                    ..state
                };
                lemma_caught_up_push(rest, message);
                assert(more.pending[0] == state.pending[0]);
                assert(more.pending.skip(1) =~= rest.pending.push(message));
                let next = told(
                    sofar.state.stage->Answer_0,
                    sofar.state.stage->Answer_1,
                    message,
                );
                assert(first.actions + (caught_up(rest).actions + next.actions) =~= (first.actions
                    + caught_up(rest).actions) + next.actions);
            }
        },
        _ => {},
    }
}

proof fn lemma_usage_is_kept(state: BackendView)
    requires
        state.stage is Answer,
        caught_up(state).state.stage is Answer,
    ensures
        caught_up(state).state.stage->Answer_0 == reported_usage(
            state.stage->Answer_0,
            state.pending,
        ),
    decreases state.pending.len(),
{
    if state.pending.len() > 0 {
        let message = state.pending.last();
        let less = BackendView { pending: state.pending.drop_last(), ..state };
        assert(less.pending.push(message) =~= state.pending);
        if !(caught_up(less).state.stage is Answer) {
            lemma_caught_up_stops(less, message);
        } else {
            lemma_caught_up_push(less, message);
            lemma_usage_is_kept(less);
            reveal_strlit("thread/tokenUsage/updated");
            reveal_strlit("item/completed");
            reveal_strlit("item/agentMessage/delta");
            assert("thread/tokenUsage/updated"@.len() == 25 && "item/completed"@.len() == 14
                && "item/agentMessage/delta"@.len() == 23);
        }
    }
}

/// An answer that ended stays ended, and what came behind stays pending.
pub proof fn lemma_caught_up_stops(state: BackendView, message: JsonView)
    requires
        !(caught_up(state).state.stage is Answer),
    ensures
        caught_up(BackendView { pending: state.pending.push(message), ..state }) == (Step {
            state: BackendView {
                pending: caught_up(state).state.pending.push(message),
                ..caught_up(state).state
            },
            actions: caught_up(state).actions,
        }),
    decreases state.pending.len(),
{
    let more = BackendView { pending: state.pending.push(message), ..state };
    match state.stage {
        StageView::Answer(usage, emitted) => {
            let first = told(usage, emitted, state.pending[0]);
            let rest = BackendView { pending: state.pending.skip(1), stage: first.stage, ..state };
            lemma_caught_up_stops(rest, message);
            assert(more.pending[0] == state.pending[0]);
            assert(more.pending.skip(1) =~= rest.pending.push(message));
        },
        _ => {},
    }
}

/// A completed answer reports the tokens as they were last reported to the client, and
/// none where none were: they are never made up.
pub proof fn law_usage_is_as_reported(state: BackendView, completed: JsonView)
    requires
        state.stage == StageView::Answer(JsonView::Null, Set::empty()),
        caught_up(state).state.stage is Answer,
        completed.at("method"@) == JsonView::Text("turn/completed"@),
        completed.at("params"@).at("turn"@).at("status"@) == JsonView::Text("completed"@),
    ensures
        caught_up(BackendView { pending: state.pending.push(completed), ..state }).actions
            == caught_up(state).actions + seq![
            ActionView::Emit(EventView::Done(reported_usage(JsonView::Null, state.pending))),
            ActionView::Complete,
        ],
{
    lemma_caught_up_push(state, completed);
    lemma_usage_is_kept(state);
    reveal_strlit("turn/completed");
    reveal_strlit("thread/tokenUsage/updated");
    reveal_strlit("item/completed");
    reveal_strlit("item/agentMessage/delta");
    assert("turn/completed"@[0] == 't' && "item/completed"@[0] == 'i');
    assert("thread/tokenUsage/updated"@.len() == 25 && "turn/completed"@.len() == 14
        && "item/agentMessage/delta"@.len() == 23);
}

/// The messages of the app-server, one after the other.
pub open spec fn heard(state: BackendView, messages: Seq<JsonView>) -> Step
    decreases messages.len(),
{
    if messages.len() == 0 {
        Step { state, actions: Seq::empty() }
    } else {
        let before = heard(state, messages.drop_last());
        let last = received(before.state, messages.last());
        Step { state: last.state, actions: before.actions + last.actions }
    }
}

/// It makes no difference to an answer whether its messages came early and were kept, or
/// came when they were waited for: they are taken in, in their order, with the same
/// result.
pub proof fn law_early_messages_count_like_late_ones(
    state: BackendView,
    messages: Seq<JsonView>,
)
    requires
        state.stage is Answer,
        state.pending.len() == 0,
        forall|i: int| 0 <= i < messages.len() ==> !asks(#[trigger] messages[i]),
    ensures
        heard(state, messages) == caught_up(BackendView { pending: messages, ..state }),
    decreases messages.len(),
{
    if messages.len() == 0 {
        assert(state.pending =~= messages);
    } else {
        let less = messages.drop_last();
        let message = messages.last();
        assert forall|i: int| 0 <= i < less.len() implies !asks(#[trigger] less[i]) by {
            assert(less[i] == messages[i]);
        }
        law_early_messages_count_like_late_ones(state, less);
        assert(!asks(messages[messages.len() - 1]));
        let kept = BackendView { pending: less, ..state };
        assert(less.push(message) =~= messages);
        let before = heard(state, less);
        if before.state.stage is Answer {
            lemma_caught_up_push(kept, message);
            lemma_caught_up_sends_nothing(kept);
            lemma_caught_up_push(before.state, message);
            assert(caught_up(before.state).actions =~= Seq::<ActionView>::empty());
            let next = told(
                before.state.stage->Answer_0,
                before.state.stage->Answer_1,
                message,
            );
            assert(Seq::<ActionView>::empty() + next.actions =~= next.actions);
        } else {
            lemma_caught_up_sends_nothing(kept);
            lemma_caught_up_stops(kept, message);
            assert(before.state.stage is Idle);
            assert(before.actions + Seq::<ActionView>::empty() =~= before.actions);
        }
    }
}

/// While the client waits for an answer, everything else that it is told is kept in the
/// order in which it came.
pub proof fn law_messages_are_kept_in_order(state: BackendView, messages: Seq<JsonView>)
    requires
        stage_method(state.stage) is Some,
        forall|i: int|
            0 <= i < messages.len() ==> !asks(#[trigger] messages[i]) && !answers(
                state,
                messages[i],
            ),
    ensures
        heard(state, messages) == (Step {
            state: BackendView { pending: state.pending + messages, ..state },
            actions: Seq::empty(),
        }),
    decreases messages.len(),
{
    if messages.len() == 0 {
        assert(state.pending + messages =~= state.pending);
    } else {
        let less = messages.drop_last();
        assert forall|i: int| 0 <= i < less.len() implies !asks(#[trigger] less[i]) && !answers(
            state,
            less[i],
        ) by {
            assert(less[i] == messages[i]);
        }
        law_messages_are_kept_in_order(state, less);
        assert(!asks(messages[messages.len() - 1]));
        assert((state.pending + less).push(messages.last()) =~= state.pending + messages);
    }
}

/// The models of a page, as clients are told of them.
pub open spec fn page_entries(page: JsonView) -> Seq<JsonView> {
    model_entries(page.at("result"@).at("data"@)->Array_0)
}

/// The models of some pages, one page after the other.
pub open spec fn pages_entries(pages: Seq<JsonView>) -> Seq<JsonView>
    decreases pages.len(),
{
    if pages.len() == 0 {
        Seq::empty()
    } else {
        pages_entries(pages.drop_last()) + page_entries(pages.last())
    }
}

/// Whether a message is a page of models in answer to the request with that number.
pub open spec fn is_page(message: JsonView, number: int) -> bool {
    &&& !asks(message)
    &&& message.at("id"@) == JsonView::Integer(number)
    &&& message.field("error"@) is None
    &&& message.field("result"@) is Some
    &&& message.at("result"@).at("data"@) is Array
}

/// Whether another page follows.
pub open spec fn goes_on(page: JsonView) -> bool {
    page.at("result"@).at("nextCursor"@) != JsonView::Null
}

proof fn lemma_pages(state: BackendView, found: Seq<JsonView>, pages: Seq<JsonView>)
    requires
        state.stage == StageView::Models(found),
        state.sequence + pages.len() <= u64::MAX,
        forall|i: int|
            0 <= i < pages.len() ==> is_page(#[trigger] pages[i], state.sequence + i) && goes_on(
                pages[i],
            ),
    ensures
        heard(state, pages).state == (BackendView {
            pending: state.pending,
            sequence: (state.sequence + pages.len()) as u64,
            stage: StageView::Models(found + pages_entries(pages)),
        }),
    decreases pages.len(),
{
    if pages.len() == 0 {
        assert(found + pages_entries(pages) =~= found);
    } else {
        let less = pages.drop_last();
        assert forall|i: int| 0 <= i < less.len() implies is_page(
            #[trigger] less[i],
            state.sequence + i,
        ) && goes_on(less[i]) by {
            assert(less[i] == pages[i]);
        }
        lemma_pages(state, found, less);
        let last = pages.last();
        assert(last == pages[pages.len() - 1]);
        assert(is_page(last, state.sequence + less.len()) && goes_on(last));
        assert(found + pages_entries(less) + page_entries(last) =~= found + pages_entries(pages));
    }
}

/// Clients are told of the models of all pages, in their order.
pub proof fn law_models_of_all_pages_are_listed(state: BackendView, pages: Seq<JsonView>)
    requires
        state.stage == StageView::Models(Seq::empty()),
        pages.len() > 0,
        state.sequence + pages.len() <= u64::MAX,
        forall|i: int|
            0 <= i < pages.len() ==> is_page(#[trigger] pages[i], state.sequence + i) && (goes_on(
                pages[i],
            ) <==> i < pages.len() - 1),
    ensures
        heard(state, pages).state.stage is Idle,
        heard(state, pages).actions.last() == ActionView::Models(model_list(pages_entries(pages))),
{
    let less = pages.drop_last();
    let last = pages.last();
    assert forall|i: int| 0 <= i < less.len() implies is_page(
        #[trigger] less[i],
        state.sequence + i,
    ) && goes_on(less[i]) by {
        assert(less[i] == pages[i]);
    }
    lemma_pages(state, Seq::empty(), less);
    assert(last == pages[pages.len() - 1]);
    assert(is_page(last, state.sequence + less.len()) && !goes_on(last));
    assert(Seq::<JsonView>::empty() + pages_entries(less) + page_entries(last)
        =~= pages_entries(pages));
}

// ---------------------------------------------------------------------------
// What is told and what is sent

/// The new text of an item, as the app-server tells of it.
pub open spec fn is_delta(message: JsonView) -> bool {
    message.at("method"@) == JsonView::Text("item/agentMessage/delta"@)
}

/// The end of an item, as the app-server tells of it.
pub open spec fn is_item_end(message: JsonView) -> bool {
    message.at("method"@) == JsonView::Text("item/completed"@)
}

/// A piece of text is reported as it came, whatever it is: exactly one event for each, and
/// the tokens known so far stay. Only a piece without text is a failure.
pub proof fn law_delta_is_reported_as_it_came(
    usage: JsonView,
    emitted: Set<Seq<char>>,
    message: JsonView,
)
    requires
        is_delta(message),
    ensures
        ({
            let next = told(usage, emitted, message);
            match message.at("params"@).at("delta"@) {
                JsonView::Text(text) => {
                    &&& next.actions.len() == 1
                    &&& next.actions[0] == ActionView::Emit(EventView::Delta(text))
                    &&& next.stage is Answer
                    &&& next.stage->Answer_0 == usage
                },
                _ => {
                    &&& next.stage is Idle
                    &&& next.actions.len() == 1
                    &&& next.actions[0] is Fail
                },
            }
        }),
{
}

/// The text of an item that comes whole is reported as it came, unless it came before; an
/// item that is no message of the model, or has no text, reports nothing.
pub proof fn law_whole_item_is_reported_as_it_came(
    usage: JsonView,
    emitted: Set<Seq<char>>,
    message: JsonView,
    id: Seq<char>,
)
    requires
        is_item_end(message),
        message.at("params"@).at("item"@).at("id"@) == JsonView::Text(id),
    ensures
        ({
            let next = told(usage, emitted, message);
            let item = message.at("params"@).at("item"@);
            let whole = item.at("type"@) == JsonView::Text("agentMessage"@) && item.at(
                "text"@,
            ) is Text && !emitted.contains(id);
            &&& next.stage is Answer
            &&& next.stage->Answer_0 == usage
            &&& whole ==> next.actions.len() == 1 && next.actions[0] == ActionView::Emit(
                EventView::Delta(item.at("text"@)->Text_0),
            )
            &&& !whole ==> next.actions.len() == 0 && next.stage->Answer_1 == emitted
        }),
{
    reveal_strlit("item/completed");
    reveal_strlit("item/agentMessage/delta");
    assert("item/completed"@.len() == 14 && "item/agentMessage/delta"@.len() == 23);
}

/// A report of the tokens is kept as it came and reports nothing by itself.
pub proof fn law_token_report_is_kept(
    usage: JsonView,
    emitted: Set<Seq<char>>,
    message: JsonView,
)
    requires
        message.at("method"@) == JsonView::Text("thread/tokenUsage/updated"@),
    ensures
        told(usage, emitted, message).actions.len() == 0,
        told(usage, emitted, message).stage == StageView::Answer(
            message.at("params"@).at("tokenUsage"@).at("total"@),
            emitted,
        ),
{
    reveal_strlit("item/completed");
    reveal_strlit("item/agentMessage/delta");
    reveal_strlit("thread/tokenUsage/updated");
    assert("item/completed"@.len() == 14 && "item/agentMessage/delta"@.len() == 23
        && "thread/tokenUsage/updated"@.len() == 25);
}

/// A turn ends in success only with the status `completed`, and then reports the tokens
/// known so far as they are; with any other status it is a failure that names the status
/// and the reason.
pub proof fn law_turn_ends_by_its_status(
    usage: JsonView,
    emitted: Set<Seq<char>>,
    message: JsonView,
)
    requires
        message.at("method"@) == JsonView::Text("turn/completed"@),
    ensures
        ({
            let next = told(usage, emitted, message);
            let turn = message.at("params"@).at("turn"@);
            &&& next.stage is Idle
            &&& turn.at("status"@) == JsonView::Text("completed"@) ==> next.actions == seq![
                ActionView::Emit(EventView::Done(usage)),
                ActionView::Complete,
            ]
            &&& turn.at("status"@) != JsonView::Text("completed"@) ==> next.actions == seq![
                ActionView::Fail(
                    "Codex turn "@ + json_text(turn.at("status"@)) + ": "@ + json_text(
                        turn.at("error"@).at("message"@),
                    ),
                ),
            ]
        }),
{
    reveal_strlit("item/completed");
    reveal_strlit("item/agentMessage/delta");
    reveal_strlit("thread/tokenUsage/updated");
    reveal_strlit("turn/completed");
    assert("item/completed"@.len() == 14 && "item/agentMessage/delta"@.len() == 23
        && "thread/tokenUsage/updated"@.len() == 25 && "turn/completed"@.len() == 14);
    assert("item/completed"@[0] == 'i' && "turn/completed"@[0] == 't');
}

/// An error ends the turn unless the app-server will try again, and every message of another
/// kind changes nothing.
pub proof fn law_other_messages_change_nothing(
    usage: JsonView,
    emitted: Set<Seq<char>>,
    message: JsonView,
)
    ensures
        ({
            let next = told(usage, emitted, message);
            let method = message.at("method"@);
            let params = message.at("params"@);
            let told_of = is_delta(message) || is_item_end(message) || method == JsonView::Text(
                "thread/tokenUsage/updated"@,
            ) || method == JsonView::Text("turn/completed"@);
            let error = method == JsonView::Text("error"@) && params.at("willRetry"@)
                != JsonView::Bool(true);
            &&& error ==> next.stage is Idle && next.actions == seq![
                ActionView::Fail("Codex: "@ + json_text(params.at("error"@).at("message"@))),
            ]
            &&& !told_of && !error ==> next.stage == StageView::Answer(usage, emitted)
                && next.actions.len() == 0
        }),
{
    reveal_strlit("item/completed");
    reveal_strlit("item/agentMessage/delta");
    reveal_strlit("thread/tokenUsage/updated");
    reveal_strlit("turn/completed");
    reveal_strlit("error");
    assert("item/completed"@.len() == 14 && "item/agentMessage/delta"@.len() == 23
        && "thread/tokenUsage/updated"@.len() == 25 && "turn/completed"@.len() == 14
        && "error"@.len() == 5);
}

/// While an answer is taken in, a message that came is taken in at once and alone: what
/// follows from it is what it tells.
pub proof fn law_answer_is_taken_in_message_by_message(state: BackendView, message: JsonView)
    requires
        state.stage is Answer,
        state.pending.len() == 0,
        !asks(message),
    ensures
        ({
            let next = received(state, message);
            let stated = told(state.stage->Answer_0, state.stage->Answer_1, message);
            &&& next.actions == stated.actions
            &&& next.state.stage == stated.stage
            &&& next.state.pending.len() == 0
            &&& next.state.sequence == state.sequence
        }),
{
    lemma_caught_up_push(state, message);
    assert(caught_up(state).actions =~= Seq::<ActionView>::empty());
    let stated = told(state.stage->Answer_0, state.stage->Answer_1, message);
    assert(Seq::<ActionView>::empty() + stated.actions =~= stated.actions);
}

/// The prompt goes to the app-server as it is: its model, its instructions and where it
/// works with the conversation, and its text and effort with the turn, which is of the
/// conversation that was started.
pub proof fn law_prompt_is_sent_as_it_is(
    prompt: PromptView,
    workspace: Seq<char>,
    servers: JsonView,
    thread: Seq<char>,
)
    ensures
        ({
            let started = thread_params(prompt, workspace, servers);
            let turn = turn_params(thread, prompt);
            &&& started.at("model"@) == JsonView::Text(prompt.model)
            &&& started.at("cwd"@) == JsonView::Text(workspace)
            &&& started.at("developerInstructions"@) == JsonView::Text(prompt.instructions)
            &&& started.at("approvalPolicy"@) == JsonView::Text("on-request"@)
            &&& started.at("baseInstructions"@) is Text
            &&& turn.at("threadId"@) == JsonView::Text(thread)
            &&& turn.at("input"@).count() == 1
            &&& turn.at("input"@).item(0).at("type"@) == JsonView::Text("text"@)
            &&& turn.at("input"@).item(0).at("text"@) == JsonView::Text(prompt.text)
            &&& prompt.effort is None ==> turn.at("effort"@) == JsonView::Null
            &&& prompt.effort is Some ==> turn.at("effort"@) == JsonView::Text(prompt.effort->0)
        }),
{
    lemma_names();
}

/// A request carries its number, its method and its parameters as they are, and a refusal
/// answers the very request that it refuses.
pub proof fn law_messages_carry_what_is_given(
    id: u64,
    method: Seq<char>,
    params: JsonView,
    message: JsonView,
    version: Seq<char>,
    cursor: JsonView,
)
    ensures
        request_message(id, method, params).at("id"@) == JsonView::Integer(id as int),
        request_message(id, method, params).at("method"@) == JsonView::Text(method),
        request_message(id, method, params).at("params"@) == params,
        refusal(message).at("id"@) == message.at("id"@),
        refusal(message).at("error"@).at("code"@) == JsonView::Integer(-32601),
        refusal(message).at("error"@).at("message"@) is Text,
        initialize_params(version).at("clientInfo"@).at("version"@) == JsonView::Text(version),
        initialize_params(version).at("clientInfo"@).at("name"@) == JsonView::Text("gprox"@),
        models_params(cursor).at("cursor"@) == cursor,
        models_params(cursor).at("limit"@) == JsonView::Integer(100),
{
    lemma_names();
}

/// A prompt is carried through the conversation step by step: when the tool servers are
/// known, a conversation is started with the model and the instructions of the prompt; when
/// it has started, its text is handed over to that conversation; and when that is done, the
/// answer is taken in with nothing reported of it before.
pub proof fn law_prompt_is_carried_through(
    state: BackendView,
    prompt: PromptView,
    workspace: Seq<char>,
    message: JsonView,
)
    requires
        state.sequence < u64::MAX,
        !asks(message),
        message.at("id"@) == JsonView::Integer(state.sequence as int),
        message.field("error"@) is None,
        message.field("result"@) is Some,
    ensures
        ({
            let next = received(state, message);
            let result = message.at("result"@);
            let first = next.actions[0]->Send_0;
            let params = first.at("params"@);
            &&& state.stage == StageView::Config(prompt, workspace) ==> {
                &&& next.actions.len() == 1 && next.actions[0] is Send
                &&& next.state.stage == StageView::Thread(prompt)
                &&& next.state.pending == state.pending
                &&& first.at("method"@) == JsonView::Text("thread/start"@)
                &&& first.at("id"@) == JsonView::Integer(state.sequence + 1)
                &&& params.at("model"@) == JsonView::Text(prompt.model)
                &&& params.at("developerInstructions"@) == JsonView::Text(prompt.instructions)
                &&& params.at("cwd"@) == JsonView::Text(workspace)
                &&& params.at("config"@) == overrides(result.at("config"@).at("mcp_servers"@))
            }
            &&& state.stage == StageView::Thread(prompt) && result.at("thread"@).at("id"@) is Text
                ==> {
                &&& next.actions.len() == 1 && next.actions[0] is Send
                &&& next.state.stage is Turn
                &&& next.state.pending == state.pending
                &&& first.at("method"@) == JsonView::Text("turn/start"@)
                &&& first.at("id"@) == JsonView::Integer(state.sequence + 1)
                &&& params.at("threadId"@) == result.at("thread"@).at("id"@)
                &&& params.at("input"@).count() == 1
                &&& params.at("input"@).item(0).at("text"@) == JsonView::Text(prompt.text)
            }
            &&& state.stage == StageView::Thread(prompt) && !(result.at("thread"@).at(
                "id"@,
            ) is Text) ==> next.state.stage is Idle && next.actions.len() == 1
                && next.actions[0] is Fail
            &&& state.stage is Turn && state.pending.len() == 0 ==> {
                &&& next.actions.len() == 0
                &&& next.state.stage is Answer
                &&& next.state.stage->Answer_0 == JsonView::Null
                &&& forall|id: Seq<char>| !next.state.stage->Answer_1.contains(id)
            }
            &&& state.stage is Account ==> {
                &&& next.actions.len() == 1 && next.state.stage is Idle
                &&& (next.actions[0] is Ready <==> result.at("account"@).at("type"@)
                    == JsonView::Text("chatgpt"@))
            }
        }),
{
    lemma_names();
}

/// A failed request is told with the method and the reason as they are, and ends what the
/// client was doing.
pub proof fn law_failed_request_is_told(state: BackendView, message: JsonView)
    requires
        answers(state, message),
        !asks(message),
        message.field("error"@) is Some,
    ensures
        received(state, message).state.stage is Idle,
        received(state, message).state.pending == state.pending,
        received(state, message).actions == seq![
            ActionView::Fail(
                "Codex "@ + stage_method(state.stage)->0 + ": "@ + json_text(
                    message.at("error"@).at("message"@),
                ),
            ),
        ],
{
}

/// Only the setting of a tool server of the configuration is overridden, and each of them is
/// switched off.
pub proof fn law_overrides_are_the_servers(servers: JsonView, key: Seq<char>, name: Seq<char>)
    ensures
        overrides(servers) is Object,
        servers.field(name) is Some ==> overrides(servers).field(
            "mcp_servers."@ + name + ".enabled"@,
        ) == Some(JsonView::Bool(false)),
        overrides(servers).field(key) is Some ==> overrides(servers).at(key) == JsonView::Bool(
            false,
        ) && exists|own: Seq<char>|
            #![trigger servers.field(own)]
            servers.field(own) is Some && key == "mcp_servers."@ + own + ".enabled"@,
{
    if servers.field(name) is Some {
        assert(servers->Object_0.contains_key(name));
        assert(is_server_setting(servers->Object_0, server_setting(name)));
    }
    if overrides(servers).field(key) is Some {
        assert(servers is Object);
        let own = choose|own: Seq<char>| #[trigger]
            servers->Object_0.contains_key(own) && key == server_setting(own);
        assert(servers.field(own) is Some);
    }
}

/// The models of some pages, as the app-server tells of them.
pub open spec fn told_models(pages: Seq<JsonView>) -> Seq<JsonView>
    decreases pages.len(),
{
    if pages.len() == 0 {
        Seq::empty()
    } else {
        told_models(pages.drop_last()) + pages.last().at("result"@).at("data"@)->Array_0
    }
}

/// Every model of a page is an entry, in its place and under its name, in the shape that
/// clients know.
pub proof fn law_every_model_is_an_entry(models: Seq<JsonView>, i: int)
    requires
        0 <= i < models.len(),
    ensures
        model_entries(models).len() == models.len(),
        model_entries(models)[i].at("id"@) == models[i].at("model"@),
        model_entries(models)[i].at("object"@) == JsonView::Text("model"@),
        model_entries(models)[i].at("created"@) == JsonView::Integer(0),
        model_entries(models)[i].at("owned_by"@) == JsonView::Text("openai"@),
{
    lemma_names();
}

proof fn lemma_entries_of_pages(pages: Seq<JsonView>)
    ensures
        pages_entries(pages).len() == told_models(pages).len(),
        forall|i: int|
            0 <= i < told_models(pages).len() ==> #[trigger] pages_entries(pages)[i]
                == model_entry(told_models(pages)[i]),
    decreases pages.len(),
{
    if pages.len() > 0 {
        lemma_entries_of_pages(pages.drop_last());
        let earlier = pages_entries(pages.drop_last());
        let models = pages.last().at("result"@).at("data"@)->Array_0;
        assert forall|i: int| 0 <= i < told_models(pages).len() implies #[trigger] pages_entries(
            pages,
        )[i] == model_entry(told_models(pages)[i]) by {
            if i < earlier.len() {
                assert(pages_entries(pages)[i] == earlier[i]);
            } else {
                assert(pages_entries(pages)[i] == model_entries(models)[i - earlier.len()]);
            }
        }
    }
}

/// The list that clients get holds every model of every page, in order: as many entries as
/// there are models, each under the name of its model.
pub proof fn law_list_holds_every_model(state: BackendView, pages: Seq<JsonView>)
    requires
        state.stage == StageView::Models(Seq::empty()),
        pages.len() > 0,
        state.sequence + pages.len() <= u64::MAX,
        forall|i: int|
            0 <= i < pages.len() ==> is_page(#[trigger] pages[i], state.sequence + i) && (goes_on(
                pages[i],
            ) <==> i < pages.len() - 1),
    ensures
        ({
            let last = heard(state, pages).actions.last();
            let list = last->Models_0;
            &&& last is Models
            &&& list.at("object"@) == JsonView::Text("list"@)
            &&& list.at("data"@).count() == told_models(pages).len()
            &&& forall|i: int|
                0 <= i < told_models(pages).len() ==> (#[trigger] list.at("data"@).item(i)).at(
                    "id"@,
                ) == told_models(pages)[i].at("model"@)
        }),
{
    lemma_names();
    law_models_of_all_pages_are_listed(state, pages);
    lemma_entries_of_pages(pages);
    let list = heard(state, pages).actions.last()->Models_0;
    assert(list.at("data"@) == JsonView::Array(pages_entries(pages)));
    assert forall|i: int| 0 <= i < told_models(pages).len() implies (#[trigger] list.at(
        "data"@,
    ).item(i)).at("id"@) == told_models(pages)[i].at("model"@) by {
        assert(pages_entries(pages)[i] == model_entry(told_models(pages)[i]));
    }
}

/// The last lines are the end of all lines, unchanged and in their order, at most so many
/// as are kept.
pub proof fn law_last_lines_are_the_end(lines: Seq<Seq<char>>, i: int)
    requires
        0 <= i < last_lines(lines).len(),
    ensures
        last_lines(lines).len() == if lines.len() < 8 {
            lines.len()
        } else {
            8nat
        },
        last_lines(lines)[i] == lines[lines.len() - last_lines(lines).len() + i],
{
}

/// Lines are joined by a line break between each two, and by nothing else.
pub proof fn law_lines_are_joined_by_breaks(
    left: Seq<Seq<char>>,
    right: Seq<Seq<char>>,
    line: Seq<char>,
)
    requires
        left.len() > 0,
        right.len() > 0,
    ensures
        joined_lines(seq![line]) == line,
        joined_lines(left + right) == joined_lines(left) + seq!['\n'] + joined_lines(right),
    decreases right.len(),
{
    reveal_strlit("\n");
    assert("\n"@ =~= seq!['\n']);
    assert((left + right).drop_last() =~= left + right.drop_last());
    assert((left + right).last() == right.last());
    if right.len() == 1 {
        assert(left + right.drop_last() =~= left);
        assert(right[0] == right.last());
    } else {
        law_lines_are_joined_by_breaks(left, right.drop_last(), line);
        assert(joined_lines(left) + seq!['\n'] + joined_lines(right.drop_last()) + "\n"@
            + right.last() =~= joined_lines(left) + seq!['\n'] + joined_lines(right));
    }
}

/// Whether a text ends with another.
pub open spec fn ends_with(text: Seq<char>, end: Seq<char>) -> bool {
    end.len() <= text.len() && text.skip(text.len() - end.len()) == end
}

/// Whether the option at this place stands behind a flag among the arguments.
pub open spec fn has_its_flag(options: Seq<Seq<char>>, i: int) -> bool {
    option_arguments(options)[2 * i] == "-c"@ && option_arguments(options)[2 * i + 1] == options[i]
}

/// Each option stands behind a flag of its own, in order.
pub proof fn law_each_option_has_its_flag(options: Seq<Seq<char>>)
    ensures
        option_arguments(options).len() == 2 * options.len(),
        forall|i: int| 0 <= i < options.len() ==> #[trigger] has_its_flag(options, i),
    decreases options.len(),
{
    if options.len() > 0 {
        let rest = options.drop_last();
        law_each_option_has_its_flag(rest);
        assert forall|i: int| 0 <= i < options.len() implies #[trigger] has_its_flag(
            options,
            i,
        ) by {
            if i < rest.len() {
                assert(has_its_flag(rest, i));
            }
        }
    }
}

/// The app-server is started to listen on its standard streams, may not write, and every
/// feature that an option names is switched off by it.
pub proof fn law_started_without_tools(i: int)
    requires
        0 <= i < launch_options().len(),
    ensures
        launch_arguments().take(3) == seq!["app-server"@, "--listen"@, "stdio://"@],
        launch_arguments()[3 + 2 * i] == "-c"@,
        launch_arguments()[3 + 2 * i + 1] == launch_options()[i],
        launch_arguments().len() == 3 + 2 * launch_options().len(),
        starts_with(launch_options()[i], "features."@) ==> ends_with(
            launch_options()[i],
            "=false"@,
        ),
        launch_options().contains("sandbox_mode=\"read-only\""@),
        launch_options().contains("approval_policy=\"on-request\""@),
        launch_options().contains("forced_login_method=\"chatgpt\""@),
        launch_options().contains("web_search=\"disabled\""@),
        launch_options().contains("features.shell_tool=false"@),
        launch_options().contains("features.unified_exec=false"@),
        launch_options().contains("features.apps=false"@),
        launch_options().contains("features.plugins=false"@),
        launch_options().contains("features.hooks=false"@),
        launch_options().contains("features.multi_agent=false"@),
        launch_options().contains("features.multi_agent_v2=false"@),
        launch_options().contains("features.code_mode=false"@),
        launch_options().contains("features.code_mode_host=false"@),
        launch_options().contains("features.browser_use=false"@),
        launch_options().contains("features.computer_use=false"@),
        launch_options().contains("features.image_generation=false"@),
        launch_options().contains("features.view_image=false"@),
        launch_options().contains("features.memories=false"@),
        launch_options().contains("features.skill_search=false"@),
        launch_options().contains("features.goals=false"@),
        launch_options().contains("features.remote_control=false"@),
{
    law_each_option_has_its_flag(launch_options());
    assert(launch_arguments().take(3) =~= seq!["app-server"@, "--listen"@, "stdio://"@]);
    assert(has_its_flag(launch_options(), i));
    reveal_strlit("features.");
    reveal_strlit("=false");
    reveal_strlit("model_provider=\"openai\"");
    reveal_strlit("forced_login_method=\"chatgpt\"");
    reveal_strlit("approval_policy=\"on-request\"");
    reveal_strlit("sandbox_mode=\"read-only\"");
    reveal_strlit("web_search=\"disabled\"");
    reveal_strlit("features.shell_tool=false");
    reveal_strlit("features.unified_exec=false");
    reveal_strlit("features.apps=false");
    reveal_strlit("features.plugins=false");
    reveal_strlit("features.hooks=false");
    reveal_strlit("features.multi_agent=false");
    reveal_strlit("features.multi_agent_v2=false");
    reveal_strlit("features.code_mode=false");
    reveal_strlit("features.code_mode_host=false");
    reveal_strlit("features.browser_use=false");
    reveal_strlit("features.computer_use=false");
    reveal_strlit("features.image_generation=false");
    reveal_strlit("features.view_image=false");
    reveal_strlit("features.memories=false");
    reveal_strlit("features.skill_search=false");
    reveal_strlit("features.goals=false");
    reveal_strlit("features.remote_control=false");
    assert("features.shell_tool=false"@.skip(19) =~= "=false"@);
    assert("features.unified_exec=false"@.skip(21) =~= "=false"@);
    assert("features.apps=false"@.skip(13) =~= "=false"@);
    assert("features.plugins=false"@.skip(16) =~= "=false"@);
    assert("features.hooks=false"@.skip(14) =~= "=false"@);
    assert("features.multi_agent=false"@.skip(20) =~= "=false"@);
    assert("features.multi_agent_v2=false"@.skip(23) =~= "=false"@);
    assert("features.code_mode=false"@.skip(18) =~= "=false"@);
    assert("features.code_mode_host=false"@.skip(23) =~= "=false"@);
    assert("features.browser_use=false"@.skip(20) =~= "=false"@);
    assert("features.computer_use=false"@.skip(21) =~= "=false"@);
    assert("features.image_generation=false"@.skip(25) =~= "=false"@);
    assert("features.view_image=false"@.skip(19) =~= "=false"@);
    assert("features.memories=false"@.skip(17) =~= "=false"@);
    assert("features.skill_search=false"@.skip(21) =~= "=false"@);
    assert("features.goals=false"@.skip(14) =~= "=false"@);
    assert("features.remote_control=false"@.skip(23) =~= "=false"@);
    assert("model_provider=\"openai\""@.take(9)[0] != 'f' || "model_provider=\"openai\""@.take(9)[1] != 'e');
    assert("forced_login_method=\"chatgpt\""@.take(9)[0] != 'f' || "forced_login_method=\"chatgpt\""@.take(9)[1] != 'e');
    assert("approval_policy=\"on-request\""@.take(9)[0] != 'f' || "approval_policy=\"on-request\""@.take(9)[1] != 'e');
    assert("sandbox_mode=\"read-only\""@.take(9)[0] != 'f' || "sandbox_mode=\"read-only\""@.take(9)[1] != 'e');
    assert("web_search=\"disabled\""@.take(9)[0] != 'f' || "web_search=\"disabled\""@.take(9)[1] != 'e');
    assert(launch_options()[0] == "model_provider=\"openai\""@);
    assert(launch_options()[1] == "forced_login_method=\"chatgpt\""@);
    assert(launch_options()[2] == "approval_policy=\"on-request\""@);
    assert(launch_options()[3] == "sandbox_mode=\"read-only\""@);
    assert(launch_options()[4] == "web_search=\"disabled\""@);
    assert(launch_options()[5] == "features.shell_tool=false"@);
    assert(launch_options()[6] == "features.unified_exec=false"@);
    assert(launch_options()[7] == "features.apps=false"@);
    assert(launch_options()[8] == "features.plugins=false"@);
    assert(launch_options()[9] == "features.hooks=false"@);
    assert(launch_options()[10] == "features.multi_agent=false"@);
    assert(launch_options()[11] == "features.multi_agent_v2=false"@);
    assert(launch_options()[12] == "features.code_mode=false"@);
    assert(launch_options()[13] == "features.code_mode_host=false"@);
    assert(launch_options()[14] == "features.browser_use=false"@);
    assert(launch_options()[15] == "features.computer_use=false"@);
    assert(launch_options()[16] == "features.image_generation=false"@);
    assert(launch_options()[17] == "features.view_image=false"@);
    assert(launch_options()[18] == "features.memories=false"@);
    assert(launch_options()[19] == "features.skill_search=false"@);
    assert(launch_options()[20] == "features.goals=false"@);
    assert(launch_options()[21] == "features.remote_control=false"@);
}

// ---------------------------------------------------------------------------
// Which message is what

/// A message that has a number and a method is a request of the app-server, whatever its method
/// is, and is refused under its own number; no other message is.
pub proof fn law_message_with_number_and_method_is_refused(state: BackendView, message: JsonView)
    ensures
        asks(message) <==> message.field("id"@) is Some && message.field("method"@) is Some,
        message.field("id"@) is Some && message.field("method"@) is Some ==> {
            let next = received(state, message);
            &&& next.state == state
            &&& next.actions.len() == 1
            &&& next.actions[0] is Send
            &&& next.actions[0]->Send_0.at("id"@) == message.at("id"@)
            &&& next.actions[0]->Send_0.at("error"@).at("code"@) == JsonView::Integer(-32601)
            &&& next.actions[0]->Send_0.at("error"@).at("message"@) == JsonView::Text(
                "Interactive tools are disabled by gprox"@,
            )
            &&& next.actions[0]->Send_0.field("result"@) is None
        },
{
    lemma_names();
}

/// The client waits for an answer at every stage but two, under the method of that stage, and
/// knows it by the number of its latest request.
pub proof fn law_answer_is_known_by_its_number(state: BackendView, message: JsonView)
    ensures
        stage_method(StageView::Initialize) == Some("initialize"@),
        stage_method(StageView::Account) == Some("account/read"@),
        state.stage is Models ==> stage_method(state.stage) == Some("model/list"@),
        state.stage is Config ==> stage_method(state.stage) == Some("config/read"@),
        state.stage is Thread ==> stage_method(state.stage) == Some("thread/start"@),
        stage_method(StageView::Turn) == Some("turn/start"@),
        stage_method(state.stage) is None <==> state.stage is Idle || state.stage is Answer,
        answers(state, message) <==> !(state.stage is Idle) && !(state.stage is Answer)
            && message.at("id"@) == JsonView::Integer(state.sequence as int),
{
}

/// A message that the client does not wait for is kept behind the others, as it is, and nothing
/// else happens.
pub proof fn law_unawaited_message_is_kept(state: BackendView, message: JsonView)
    requires
        message.field("id"@) is None || message.field("method"@) is None,
        !(state.stage is Answer),
        state.stage is Idle || message.at("id"@) != JsonView::Integer(state.sequence as int),
    ensures
        ({
            let next = received(state, message);
            &&& next.actions.len() == 0
            &&& next.state.stage == state.stage
            &&& next.state.sequence == state.sequence
            &&& next.state.pending.len() == state.pending.len() + 1
            &&& next.state.pending.last() == message
            &&& next.state.pending.drop_last() == state.pending
        }),
{
    assert(state.pending.push(message).drop_last() =~= state.pending);
}

/// The client introduces itself, says that it is ready, and asks for the login without having
/// it renewed.
pub proof fn law_introduction_goes_in_order(
    state: BackendView,
    message: JsonView,
    version: Seq<char>,
)
    requires
        state.sequence < u64::MAX,
        message.field("method"@) is None,
        message.at("id"@) == JsonView::Integer(state.sequence as int),
        message.field("error"@) is None,
        message.field("result"@) is Some,
        state.stage is Initialize,
    ensures
        ({
            let first = next_request(state, StageView::Initialize, initialize_params(version));
            let next = received(state, message);
            let notice = next.actions[0]->Send_0;
            let question = next.actions[1]->Send_0;
            &&& first.at("method"@) == JsonView::Text("initialize"@)
            &&& first.at("params"@).at("clientInfo"@).at("version"@) == JsonView::Text(version)
            &&& next.actions.len() == 2
            &&& next.actions[0] is Send && next.actions[1] is Send
            &&& notice.at("method"@) == JsonView::Text("initialized"@)
            &&& notice.at("params"@) == JsonView::object()
            &&& notice.field("id"@) is None
            &&& question.at("method"@) == JsonView::Text("account/read"@)
            &&& question.at("params"@).at("refreshToken"@) == JsonView::Bool(false)
            &&& question.at("id"@) == JsonView::Integer(state.sequence + 1)
            &&& next.state.stage is Account
            &&& next.state.pending == state.pending
        }),
{
    lemma_names();
}

/// Where a page of models says that there is another, that one is asked for by what the page
/// says, with the models so far kept; a page that is no list is a failure.
pub proof fn law_next_page_is_asked_for(
    state: BackendView,
    message: JsonView,
    found: Seq<JsonView>,
)
    requires
        state.sequence < u64::MAX,
        message.field("method"@) is None,
        message.at("id"@) == JsonView::Integer(state.sequence as int),
        message.field("error"@) is None,
        message.field("result"@) is Some,
        state.stage == StageView::Models(found),
    ensures
        ({
            let next = received(state, message);
            let result = message.at("result"@);
            let question = next.actions[0]->Send_0;
            &&& next.actions.len() == 1
            &&& result.at("data"@) is Array && result.at("nextCursor"@) != JsonView::Null ==> {
                &&& next.actions[0] is Send
                &&& question.at("method"@) == JsonView::Text("model/list"@)
                &&& question.at("params"@).at("cursor"@) == result.at("nextCursor"@)
                &&& question.at("id"@) == JsonView::Integer(state.sequence + 1)
                &&& next.state.stage is Models
                &&& next.state.stage->Models_0.take(found.len() as int) == found
                &&& next.state.stage->Models_0.len() == found.len() + result.at("data"@).count()
            }
            &&& result.at("data"@) is Array && result.at("nextCursor"@) == JsonView::Null ==> {
                &&& next.actions[0] is Models
                &&& next.actions[0]->Models_0.at("data"@).count() == found.len() + result.at(
                    "data"@,
                ).count()
                &&& next.state.stage is Idle
            }
            &&& !(result.at("data"@) is Array) ==> next.actions[0] == ActionView::Fail(
                "Codex returned invalid model list"@,
            ) && next.state.stage is Idle
        }),
{
    lemma_names();
    let models = message.at("result"@).at("data"@)->Array_0;
    assert((found + model_entries(models)).take(found.len() as int) =~= found);
}

/// An answer that holds neither a result nor an error is a failure.
pub proof fn law_empty_answer_is_a_failure(state: BackendView, message: JsonView)
    requires
        message.field("method"@) is None,
        !(state.stage is Idle),
        !(state.stage is Answer),
        message.at("id"@) == JsonView::Integer(state.sequence as int),
        message.field("error"@) is None,
        message.field("result"@) is None,
    ensures
        received(state, message).actions == seq![
            ActionView::Fail("Codex response has no result"@),
        ],
        received(state, message).state.stage is Idle,
        received(state, message).state.pending == state.pending,
{
}

/// An item is remembered by its name when its text came, and no other item is; one without a
/// name has the empty one.
pub proof fn law_item_is_remembered_by_its_name(
    usage: JsonView,
    emitted: Set<Seq<char>>,
    message: JsonView,
    id: Seq<char>,
)
    ensures
        name_of(JsonView::Text(id)) == id,
        name_of(JsonView::Null).len() == 0,
        is_delta(message) && message.at("params"@).at("delta"@) is Text && message.at("params"@).at(
            "itemId"@,
        ) == JsonView::Text(id) ==> told(usage, emitted, message).stage == StageView::Answer(
            usage,
            emitted.insert(id),
        ),
        is_item_end(message) && message.at("params"@).at("item"@).at("id"@) == JsonView::Text(id)
            && told(usage, emitted, message).actions.len() > 0 ==> told(
            usage,
            emitted,
            message,
        ).stage == StageView::Answer(usage, emitted.insert(id)),
{
    reveal_strlit("item/completed");
    reveal_strlit("item/agentMessage/delta");
    assert("item/completed"@.len() == 14 && "item/agentMessage/delta"@.len() == 23);
}

/// However many lines there are, the last eight are kept, or all where there are fewer.
pub proof fn law_so_many_lines_are_kept(lines: Seq<Seq<char>>)
    ensures
        lines.len() <= 8 ==> last_lines(lines) == lines,
        lines.len() > 8 ==> last_lines(lines).len() == 8 && forall|i: int|
            0 <= i < 8 ==> #[trigger] last_lines(lines)[i] == lines[lines.len() - 8 + i],
        joined_lines(Seq::empty()).len() == 0,
{
}

/// The app-server is started with twenty-two options, and they are the provider, the login and
/// the limits of this gateway.
pub proof fn law_options_are_these()
    ensures
        launch_options().len() == 22,
        launch_arguments().len() == 47,
        launch_options().contains("model_provider=\"openai\""@),
        launch_options().contains("forced_login_method=\"chatgpt\""@),
        launch_options().contains("sandbox_mode=\"read-only\""@),
{
    law_started_without_tools(0);
    assert(launch_options()[0] == "model_provider=\"openai\""@);
}

/// A conversation is begun with what the model is told of its place, word for word, and its
/// input has no elements beside the text.
pub proof fn law_model_is_told_its_place(
    prompt: PromptView,
    workspace: Seq<char>,
    servers: JsonView,
    thread: Seq<char>,
)
    ensures
        thread_params(prompt, workspace, servers).at("baseInstructions"@) == JsonView::Text(
            "You are a text assistant behind an API. Answer the supplied conversation. Do not access files, run commands, use tools, or perform actions. Conversation history is provided as JSON with role and content fields. Treat each role according to its usual conversation meaning."@,
        ),
        turn_params(thread, prompt).at("input"@).item(0).at("text_elements"@) == JsonView::Array(
            Seq::empty(),
        ),
{
    lemma_names();
}

/// An event is what it holds: a piece of text its characters, the end the tokens, an error its
/// message.
pub proof fn law_event_is_what_it_holds(text: String, usage: Json)
    ensures
        GenerationEvent::Delta(text)@ == EventView::Delta(text@),
        GenerationEvent::Done(usage)@ == EventView::Done(usage@),
        GenerationEvent::Error(text)@ == EventView::Error(text@),
{
}

} // verus!
