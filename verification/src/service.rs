//! Running the gateway: what a running one tells of itself, and how the others find it,
//! start it and stop it.
use crate::api::{authorization, carries_key, law_key_opens_only_its_listener, valid_bearer};
use crate::config::{generated_key, hex_text, Host, LOCALHOST_V4, LOCALHOST_V6};
use crate::failure::Failure;
use crate::json::{Json, JsonView};
use crate::names::lemma_names;
use crate::text::{
    contains, decimal, decimal_text, joined, law_part_stands_between, law_prefix_is_the_beginning,
    starts_with,
};
use vstd::prelude::*;

verus! {

/// What a running gateway leaves for others to find it by.
pub struct Runtime {
    pub pid: u32,
    pub base_url: String,
    pub admin_port: u16,
    pub admin_token: String,
    pub instance: String,
}

/// The address that clients on the same machine use: one that stands for every address
/// of the machine is replaced by its own.
pub open spec fn reachable(host: Host) -> Host {
    match host {
        Host::V4(bits) if bits == 0 => Host::V4(LOCALHOST_V4),
        Host::V6(bits) if bits == 0 => Host::V6(LOCALHOST_V6),
        _ => host,
    }
}

/// The address that clients on the same machine use.
pub fn display_host(host: Host) -> (shown: Host)
    ensures
        shown == reachable(host),
{
    match host {
        Host::V4(0) => Host::V4(LOCALHOST_V4),
        Host::V6(0) => Host::V6(LOCALHOST_V6),
        host => host,
    }
}

/// Where clients reach the gateway at an address with its port.
pub fn base_url(address: &str) -> (url: String)
    ensures
        url@ == "http://"@ + address@ + "/v1"@,
{
    let mut url = joined("http://", address);
    url.append("/v1");
    url
}

// ---------------------------------------------------------------------------
// The management listener

/// Whether a call of the management listener carries its credential. The answer to one
/// that does not is its status and its text.
pub fn control_auth(headers: &axum::http::HeaderMap, runtime: &Runtime) -> (outcome: Result<
    (),
    (u16, &'static str),
>)
    ensures
        match outcome {
            Ok(()) => carries_key(authorization(*headers), runtime.admin_token@),
            Err((status, text)) => !carries_key(authorization(*headers), runtime.admin_token@)
                && status == 401 && text@ == "Invalid management token"@,
        },
{
    if valid_bearer(headers, runtime.admin_token.as_str()) {
        Ok(())
    } else {
        Err((401, "Invalid management token"))
    }
}

/// How a gateway answers the question who it is.
pub open spec fn identity(runtime: Runtime) -> JsonView {
    JsonView::object().with("instance"@, JsonView::Text(runtime.instance@)).with(
        "pid"@,
        JsonView::Integer(runtime.pid as int),
    )
}

/// How a gateway answers the question who it is.
pub fn status_body(runtime: &Runtime) -> (body: Json)
    ensures
        body@ == identity(*runtime),
{
    Json::object().with("instance", Json::text(runtime.instance.as_str())).with(
        "pid",
        Json::Unsigned(runtime.pid as u64),
    )
}

/// How a gateway confirms that it will stop.
pub fn stop_body() -> (body: Json)
    ensures
        body@ == JsonView::object().with("stopping"@, JsonView::Bool(true)),
{
    Json::object().with("stopping", Json::Bool(true))
}

/// Where the management listener takes a command.
pub fn control_url(runtime: &Runtime, command: &str) -> (url: String)
    ensures
        url@ == "http://127.0.0.1:"@ + decimal(runtime.admin_port as nat) + "/"@ + command@,
{
    let mut url = joined("http://127.0.0.1:", decimal_text(runtime.admin_port as u64).as_str());
    url.append("/");
    url.append(command);
    url
}

/// What came back when the management listener was asked who it is: whether it was
/// content, and its answer where that is JSON.
pub open spec fn confirms(runtime: Runtime, success: bool, body: Option<JsonView>) -> bool {
    success && body is Some && body->0.at("instance"@) == JsonView::Text(runtime.instance@)
}

/// Whether the gateway that left `runtime` is the one that answered.
pub fn is_running(runtime: &Runtime, success: bool, body: Option<&Json>) -> (running: bool)
    ensures
        running == confirms(
            *runtime,
            success,
            match body {
                Some(value) => Some(value@),
                None => None,
            },
        ),
{
    match body {
        Some(value) => success && value.at("instance").is_text(runtime.instance.as_str()),
        None => false,
    }
}

/// A gateway recognises itself in its answer, and nobody else does who has another name.
pub proof fn law_gateway_is_known_by_its_instance(runtime: Runtime, other: Runtime)
    ensures
        confirms(runtime, true, Some(identity(other))) <==> runtime.instance@ == other.instance@,
        !confirms(runtime, false, Some(identity(other))),
        !confirms(runtime, true, None),
{
    reveal_strlit("instance");
    reveal_strlit("pid");
    assert("instance"@.len() == 8 && "pid"@.len() == 3);
}

// ---------------------------------------------------------------------------
// Status

/// What is said of the gateway, by the one that answers and by whether some process
/// holds its lock.
pub open spec fn status_of(running: Option<Runtime>, locked: bool, home: Seq<char>) -> Seq<char> {
    match running {
        Some(runtime) => "running\nPID: "@ + decimal(runtime.pid as nat) + "\nBase URL: "@
            + runtime.base_url@ + "\nState: "@ + home,
        None => if locked {
            "initializing or management endpoint unavailable"@
        } else {
            "stopped"@
        },
    }
}

/// What is said of the gateway.
pub fn status(running: Option<&Runtime>, locked: bool, home: &str) -> (text: String)
    ensures
        text@ == status_of(
            match running {
                Some(runtime) => Some(*runtime),
                None => None,
            },
            locked,
            home@,
        ),
{
    match running {
        Some(runtime) => {
            let mut text = joined("running\nPID: ", decimal_text(runtime.pid as u64).as_str());
            text.append("\nBase URL: ");
            text.append(runtime.base_url.as_str());
            text.append("\nState: ");
            text.append(home);
            text
        },
        None => if locked {
            "initializing or management endpoint unavailable".to_owned()
        } else {
            "stopped".to_owned()
        },
    }
}

/// The first word tells whether the gateway runs: only one that answers is said to run,
/// and only one that holds no lock is said to be stopped.
pub proof fn law_status_begins_with_the_state(
    running: Option<Runtime>,
    locked: bool,
    home: Seq<char>,
)
    ensures
        starts_with(status_of(running, locked, home), "running"@) <==> running is Some,
        starts_with(status_of(running, locked, home), "stopped"@) <==> running is None && !locked,
{
    reveal_strlit("running");
    reveal_strlit("stopped");
    reveal_strlit("running\nPID: ");
    reveal_strlit("initializing or management endpoint unavailable");
    let text = status_of(running, locked, home);
    assert("running"@.len() == 7 && "stopped"@.len() == 7);
    assert("running"@[0] == 'r' && "stopped"@[0] == 's');
    assert("initializing or management endpoint unavailable"@[0] == 'i');
    match running {
        Some(_) => {
            let head = "running\nPID: "@;
            assert(head.len() == 13);
            assert(head.take(7) =~= "running"@);
            assert(text.take(7) =~= head.take(7));
            assert(text[0] == 'r');
            assert(text.take(7)[0] == 'r');
        },
        None => {
            assert(text.take(7)[0] == text[0]);
            if !locked {
                assert(text.take(7) =~= "stopped"@);
            }
        },
    }
}

// ---------------------------------------------------------------------------
// Stopping

/// What stopping comes down to.
pub enum StopPlan {
    /// Nothing is to be stopped; this is said.
    Done(String),
    /// The gateway is to be told to stop.
    Ask,
}

pub enum StopPlanView {
    Done(Seq<char>),
    Ask,
}

impl View for StopPlan {
    type V = StopPlanView;

    open spec fn view(&self) -> StopPlanView {
        match self {
            StopPlan::Done(text) => StopPlanView::Done(text@),
            StopPlan::Ask => StopPlanView::Ask,
        }
    }
}

/// How to stop a gateway: whether one left word of itself, whether it answers, and
/// whether some process holds the lock. A gateway that does not answer is left alone.
pub open spec fn stop_plan_of(known: bool, running: bool, locked: bool) -> Result<
    StopPlanView,
    Seq<char>,
> {
    if known && running {
        Ok(StopPlanView::Ask)
    } else if locked {
        Err(
            if known {
                "gprox holds its lock but management endpoint is unavailable; no process was force-killed"@
            } else {
                "gprox is initializing; retry stop shortly"@
            },
        )
    } else {
        Ok(
            StopPlanView::Done(
                if known {
                    "gprox is stopped (stale runtime state)"@
                } else {
                    "gprox is stopped"@
                },
            ),
        )
    }
}

/// How to stop a gateway.
pub fn stop_plan(known: bool, running: bool, locked: bool) -> (plan: Result<StopPlan, Failure>)
    ensures
        match plan {
            Ok(p) => stop_plan_of(known, running, locked) == Ok::<StopPlanView, Seq<char>>(p@),
            Err(failure) => stop_plan_of(known, running, locked) == Err::<StopPlanView, Seq<char>>(
                failure@,
            ),
        },
{
    if known && running {
        return Ok(StopPlan::Ask);
    }
    if locked {
        if known {
            Err(
                Failure::new(
                    "gprox holds its lock but management endpoint is unavailable; no process was force-killed",
                ),
            )
        } else {
            Err(Failure::new("gprox is initializing; retry stop shortly"))
        }
    } else if known {
        Ok(StopPlan::Done("gprox is stopped (stale runtime state)".to_owned()))
    } else {
        Ok(StopPlan::Done("gprox is stopped".to_owned()))
    }
}

/// How often it is looked whether a gateway has stopped.
pub const STOP_LOOKS: u32 = 100;

/// How often it is looked whether a gateway has started.
pub const START_LOOKS: u32 = 240;

/// What to do after a look.
pub enum Look {
    /// It is done; this is said.
    Done(String),
    /// Look again a little later.
    Again,
}

pub enum LookView {
    Done(Seq<char>),
    Again,
}

impl View for Look {
    type V = LookView;

    open spec fn view(&self) -> LookView {
        match self {
            Look::Done(text) => LookView::Done(text@),
            Look::Again => LookView::Again,
        }
    }
}

/// What to do after some looks without success, and one more that showed whether the
/// lock is free.
pub open spec fn stop_look_of(looks: u32, free: bool) -> Result<LookView, Seq<char>> {
    if looks >= STOP_LOOKS {
        Err("Stop requested, but gprox has not released its lock yet"@)
    } else if free {
        Ok(LookView::Done("gprox stopped"@))
    } else {
        Ok(LookView::Again)
    }
}

/// What to do while a gateway that was told to stop does so.
pub fn stop_look(looks: u32, free: bool) -> (next: Result<Look, Failure>)
    ensures
        match next {
            Ok(look) => stop_look_of(looks, free) == Ok::<LookView, Seq<char>>(look@),
            Err(failure) => stop_look_of(looks, free) == Err::<LookView, Seq<char>>(failure@),
        },
{
    if looks >= STOP_LOOKS {
        Err(Failure::new("Stop requested, but gprox has not released its lock yet"))
    } else if free {
        Ok(Look::Done("gprox stopped".to_owned()))
    } else {
        Ok(Look::Again)
    }
}

/// What a command finds of a gateway: whether one left word of itself, whether that one
/// answers, and whether some process holds the lock.
pub struct Found {
    pub known: bool,
    pub running: bool,
    pub locked: bool,
}

/// Whether a look showed that the lock is free, by what each look showed.
pub open spec fn seen_free(free: Seq<bool>, look: int) -> bool {
    0 <= look < free.len() && free[look]
}

/// How waiting for a gateway to stop ends after some looks without success.
pub open spec fn stop_wait(looks: u32, free: Seq<bool>) -> Result<Seq<char>, Seq<char>>
    decreases STOP_LOOKS + 1 - looks,
{
    match stop_look_of(looks, seen_free(free, looks as int)) {
        Err(reason) => Err(reason),
        Ok(LookView::Done(text)) => Ok(text),
        Ok(LookView::Again) => stop_wait((looks + 1) as u32, free),
    }
}

/// How the command to stop ends, by what it finds and by what each of its looks shows.
pub open spec fn stop_outcome(found: Found, free: Seq<bool>) -> Result<Seq<char>, Seq<char>> {
    match stop_plan_of(found.known, found.running, found.locked) {
        Err(reason) => Err(reason),
        Ok(StopPlanView::Done(text)) => Ok(text),
        Ok(StopPlanView::Ask) => stop_wait(0, free),
    }
}

/// The life of a gateway. It takes the lock before anything else, leaves word of itself
/// when it listens, and in the end takes back its word before it releases the lock. That
/// a run goes through these phases in this order is the program's part: it keeps the lock
/// and the word in guards that are given up in the opposite order.
pub enum Phase {
    /// It holds the lock and has not begun to listen.
    Initializing,
    /// It has left word of itself and answers.
    Serving,
    /// It was told to stop and answers no more.
    Draining,
    /// It has taken back its word.
    Withdrawn,
    /// It has released its lock.
    Gone,
}

impl Phase {
    /// How far a gateway is.
    pub open spec fn rank(self) -> int {
        match self {
            Phase::Initializing => 0,
            Phase::Serving => 1,
            Phase::Draining => 2,
            Phase::Withdrawn => 3,
            Phase::Gone => 4,
        }
    }

    /// What a command finds of a gateway in this phase.
    pub open spec fn found(self) -> Found {
        Found {
            known: self is Serving || self is Draining,
            running: self is Serving,
            locked: !(self is Gone),
        }
    }
}

/// What looks at a gateway show of its lock, by the phase it is in at each look.
pub open spec fn locks_seen(phases: Seq<Phase>) -> Seq<bool> {
    phases.map_values(|phase: Phase| !phase.found().locked)
}

proof fn lemma_stop_wait(looks: u32, free: Seq<bool>)
    requires
        looks <= STOP_LOOKS,
    ensures
        stop_wait(looks, free) == if exists|i: int|
            looks <= i < STOP_LOOKS && #[trigger] seen_free(free, i) {
            Ok::<Seq<char>, Seq<char>>("gprox stopped"@)
        } else {
            Err("Stop requested, but gprox has not released its lock yet"@)
        },
    decreases STOP_LOOKS - looks,
{
    if looks < STOP_LOOKS && !seen_free(free, looks as int) {
        lemma_stop_wait((looks + 1) as u32, free);
        if exists|i: int| looks <= i < STOP_LOOKS && #[trigger] seen_free(free, i) {
            let i = choose|i: int| looks <= i < STOP_LOOKS && #[trigger] seen_free(free, i);
            assert(looks + 1 <= i);
        }
    }
}

/// To stop succeeds only where the lock is free in the end. A gateway that answers is told
/// to stop, with a credential that it accepts, and the lock must be seen free while there
/// are looks left; it is a failure where it is not. Where nobody answers, nobody is told
/// anything: it is a success where the lock is free and a failure where it is held.
pub proof fn law_stop_ends_with_a_free_lock(found: Found, free: Seq<bool>, runtime: Runtime)
    ensures
        stop_plan_of(found.known, found.running, found.locked) == Ok::<StopPlanView, Seq<char>>(
            StopPlanView::Ask,
        ) <==> found.known && found.running,
        carries_key(Some("Bearer "@ + runtime.admin_token@), runtime.admin_token@),
        found.known && found.running ==> stop_outcome(found, free) == if exists|i: int|
            0 <= i < STOP_LOOKS && #[trigger] seen_free(free, i) {
            Ok::<Seq<char>, Seq<char>>("gprox stopped"@)
        } else {
            Err("Stop requested, but gprox has not released its lock yet"@)
        },
        !(found.known && found.running) ==> (stop_outcome(found, free) is Ok <==> !found.locked),
{
    lemma_stop_wait(0, free);
    law_key_opens_only_its_listener(runtime.admin_token@, runtime.admin_token@);
}

/// Wherever nobody answers and the lock is free, the gateway is said to be stopped, and to
/// stop it succeeds.
pub proof fn law_free_lock_means_stopped(found: Found, free: Seq<bool>, home: Seq<char>)
    requires
        !found.running,
        !found.locked,
    ensures
        status_of(None, found.locked, home) == "stopped"@,
        stop_outcome(found, free) is Ok,
{
}

/// A gateway that was stopped with success is gone from then on: it has released its lock
/// and taken back its word, it is said to be stopped, and to stop it once more succeeds as
/// well. `phases` are those it is in at the looks of the first command, `later` is any
/// phase it is in afterwards.
pub proof fn law_stopped_gateway_stays_stopped(
    phases: Seq<Phase>,
    later: Phase,
    again: Seq<bool>,
    home: Seq<char>,
)
    requires
        stop_outcome(Phase::Serving.found(), locks_seen(phases)) is Ok,
        forall|i: int| 0 <= i < phases.len() ==> (#[trigger] phases[i]).rank() <= later.rank(),
    ensures
        later is Gone,
        !later.found().known && !later.found().running && !later.found().locked,
        status_of(None, later.found().locked, home) == "stopped"@,
        stop_outcome(later.found(), again) is Ok,
{
    lemma_stop_wait(0, locks_seen(phases));
    let i = choose|i: int|
        0 <= i < STOP_LOOKS && #[trigger] seen_free(locks_seen(phases), i);
    assert(phases[i] is Gone);
}

/// A gateway that keeps its lock is never said to be stopped: to stop it fails, whatever
/// else it does, and nothing is done to its process.
pub proof fn law_held_lock_is_a_failure(phase: Phase, phases: Seq<Phase>, home: Seq<char>)
    requires
        !(phase is Gone),
        forall|i: int| 0 <= i < phases.len() ==> !((#[trigger] phases[i]) is Gone),
    ensures
        stop_outcome(phase.found(), locks_seen(phases)) is Err,
        status_of(None, phase.found().locked, home) != "stopped"@,
{
    lemma_stop_wait(0, locks_seen(phases));
    assert forall|i: int| !#[trigger] seen_free(locks_seen(phases), i) by {
        if seen_free(locks_seen(phases), i) {
            assert(phases[i] is Gone);
        }
    }
    reveal_strlit("stopped");
    reveal_strlit("initializing or management endpoint unavailable");
    assert("stopped"@[0] == 's' && "initializing or management endpoint unavailable"@[0] == 'i');
}

// ---------------------------------------------------------------------------
// Starting in the background

/// A gateway by its address and its process.
pub open spec fn located(what: Seq<char>, runtime: Runtime) -> Seq<char> {
    what + runtime.base_url@ + " (PID "@ + decimal(runtime.pid as nat) + ")"@
}

fn locate(what: &str, runtime: &Runtime) -> (text: String)
    ensures
        text@ == located(what@, *runtime),
{
    let mut text = joined(what, runtime.base_url.as_str());
    text.append(" (PID ");
    text.append(decimal_text(runtime.pid as u64).as_str());
    text.append(")");
    text
}

/// What is said where a gateway runs already.
pub fn already_running(runtime: &Runtime) -> (text: String)
    ensures
        text@ == located("gprox already running: "@, *runtime),
{
    locate("gprox already running: ", runtime)
}

/// Why a gateway did not start in the background.
pub enum StartError {
    /// Its process has ended.
    Exited(Failure),
    /// It took too long; its process is to be killed.
    TimedOut(Failure),
}

#[verifier::ext_equal]
pub enum StartErrorView {
    Exited(Seq<char>),
    TimedOut(Seq<char>),
}

impl View for StartError {
    type V = StartErrorView;

    open spec fn view(&self) -> StartErrorView {
        match self {
            StartError::Exited(failure) => StartErrorView::Exited(failure@),
            StartError::TimedOut(failure) => StartErrorView::TimedOut(failure@),
        }
    }
}

/// What to do after some looks without success, and one more that showed whether the
/// process has ended, and which gateway left word of itself and answers.
pub open spec fn start_look_of(
    looks: u32,
    ended: Option<Seq<char>>,
    running: Option<Runtime>,
    child: u32,
    log: Seq<char>,
) -> Result<LookView, StartErrorView> {
    if looks >= START_LOOKS {
        Err(StartErrorView::TimedOut("Background startup timed out. See "@ + log))
    } else if ended is Some {
        Err(StartErrorView::Exited("Background gprox exited ("@ + ended->0 + "). See "@ + log))
    } else if running is Some && running->0.pid == child {
        Ok(
            LookView::Done(
                located("gprox running in background: "@, running->0) + "\nKey: gprox key\nLog: "@
                    + log,
            ),
        )
    } else {
        Ok(LookView::Again)
    }
}

/// What to do while a gateway starts in the background. Only the one that was started
/// counts, not another that answers.
pub fn start_look(
    looks: u32,
    ended: Option<&str>,
    running: Option<&Runtime>,
    child: u32,
    log: &str,
) -> (next: Result<Look, StartError>)
    ensures
        ({
            let stated = start_look_of(
                looks,
                match ended {
                    Some(status) => Some(status@),
                    None => None,
                },
                match running {
                    Some(runtime) => Some(*runtime),
                    None => None,
                },
                child,
                log@,
            );
            match next {
                Ok(look) => stated == Ok::<LookView, StartErrorView>(look@),
                Err(error) => stated == Err::<LookView, StartErrorView>(error@),
            }
        }),
{
    if looks >= START_LOOKS {
        let reason = joined("Background startup timed out. See ", log);
        return Err(StartError::TimedOut(Failure::new(reason.as_str())));
    }
    match ended {
        Some(status) => {
            let mut reason = joined("Background gprox exited (", status);
            reason.append("). See ");
            reason.append(log);
            return Err(StartError::Exited(Failure::new(reason.as_str())));
        },
        None => {},
    }
    match running {
        Some(runtime) => {
            if runtime.pid == child {
                let mut text = locate("gprox running in background: ", runtime);
                text.append("\nKey: gprox key\nLog: ");
                text.append(log);
                return Ok(Look::Done(text));
            }
        },
        None => {},
    }
    Ok(Look::Again)
}

/// Waiting ends: after the last look there is an outcome, whatever it shows, and before it
/// no process is given up.
pub proof fn law_waiting_ends(
    looks: u32,
    free: bool,
    ended: Option<Seq<char>>,
    running: Option<Runtime>,
    child: u32,
    log: Seq<char>,
)
    ensures
        looks >= STOP_LOOKS ==> stop_look_of(looks, free) is Err,
        looks >= START_LOOKS ==> start_look_of(looks, ended, running, child, log) is Err,
        looks < START_LOOKS ==> !(start_look_of(looks, ended, running, child, log) matches Err(
            StartErrorView::TimedOut(_),
        )),
{
}

// ---------------------------------------------------------------------------
// The end of a run

/// Why a run ended.
pub enum Exit {
    /// It was told to stop.
    Requested,
    /// The listener for clients ended.
    Public(String),
    /// The management listener ended.
    Management(String),
}

/// How a run ended: well only where it was told to.
pub fn exit_outcome(exit: &Exit) -> (outcome: Result<(), Failure>)
    ensures
        match outcome {
            Ok(()) => exit is Requested,
            Err(failure) => match exit {
                Exit::Requested => false,
                Exit::Public(result) => failure@ == "Public listener exited: "@ + result@,
                Exit::Management(result) => failure@ == "Management listener exited: "@ + result@,
            },
        },
{
    match exit {
        Exit::Requested => Ok(()),
        Exit::Public(result) => Err(
            Failure::new(joined("Public listener exited: ", result.as_str()).as_str()),
        ),
        Exit::Management(result) => Err(
            Failure::new(joined("Management listener exited: ", result.as_str()).as_str()),
        ),
    }
}

/// What a gateway says when it begins to listen.
pub fn banner(runtime: &Runtime, credentials: &str) -> (text: String)
    ensures
        text@ == "gprox listening on "@ + runtime.base_url@
            + "\nAPI key: run `gprox key` (credentials: "@ + credentials@
            + ")\nStop: Ctrl+C or gprox stop"@,
{
    let mut text = joined("gprox listening on ", runtime.base_url.as_str());
    text.append("\nAPI key: run `gprox key` (credentials: ");
    text.append(credentials);
    text.append(")\nStop: Ctrl+C or gprox stop");
    text
}

/// A key that was made for clients does not open the management listener, whose
/// credential is of another form.
pub proof fn law_client_key_cannot_manage(key: Seq<char>, admin_token: Seq<char>)
    requires
        generated_key(key),
        hex_text(admin_token, 64),
    ensures
        !carries_key(Some("Bearer "@ + key), admin_token),
{
    reveal_strlit("sk-gprox-");
    assert("sk-gprox-"@.len() == 9);
    law_key_opens_only_its_listener(key, admin_token);
}

// ---------------------------------------------------------------------------
// What is told

/// Clients are never sent to an address that stands for all of the machine's; every other
/// address is told as it is.
pub proof fn law_told_address_is_one_address(host: Host)
    ensures
        reachable(host) != Host::V4(0),
        reachable(host) != Host::V6(0),
        host == Host::V4(0) ==> reachable(host) == Host::V4(0x7f00_0001),
        host == Host::V6(0) ==> reachable(host) == Host::V6(1),
        host != Host::V4(0) && host != Host::V6(0) ==> reachable(host) == host,
{
}

/// A gateway tells its own name and its own process.
pub proof fn law_gateway_tells_its_own_name(runtime: Runtime)
    ensures
        identity(runtime).at("instance"@) == JsonView::Text(runtime.instance@),
        identity(runtime).at("pid"@) == JsonView::Integer(runtime.pid as int),
{
    lemma_names();
}

/// Only a content answer that holds the name of the gateway tells that it runs.
pub proof fn law_only_its_own_name_confirms(runtime: Runtime, success: bool, body: Option<JsonView>)
    ensures
        confirms(runtime, success, body) ==> success && body is Some,
        confirms(runtime, success, body) ==> body->0.field("instance"@) == Some(
            JsonView::Text(runtime.instance@),
        ),
        success && body is Some && body->0.field("instance"@) == Some(
            JsonView::Text(runtime.instance@),
        ) ==> confirms(runtime, success, body),
{
}

/// What is said of a gateway that runs holds its process, its address and its state directory
/// as they are.
pub proof fn law_status_tells_where(runtime: Runtime, locked: bool, home: Seq<char>)
    ensures
        contains(status_of(Some(runtime), locked, home), decimal(runtime.pid as nat)),
        contains(status_of(Some(runtime), locked, home), runtime.base_url@),
        contains(status_of(Some(runtime), locked, home), home),
{
    let text = status_of(Some(runtime), locked, home);
    let pid = decimal(runtime.pid as nat);
    let none = Seq::<char>::empty();
    let head = "running\nPID: "@;
    let middle = head + pid + "\nBase URL: "@;
    let end = middle + runtime.base_url@ + "\nState: "@;
    let behind_pid = "\nBase URL: "@ + runtime.base_url@ + "\nState: "@ + home;
    law_part_stands_between(head, pid, behind_pid, none);
    assert(head + pid + behind_pid =~= text);
    let behind_url = "\nState: "@ + home;
    law_part_stands_between(middle, runtime.base_url@, behind_url, none);
    assert(middle + runtime.base_url@ + behind_url =~= text);
    law_part_stands_between(end, home, none, none);
    assert(end + home + none =~= text);
}

/// What is said of a gateway by its address and its process holds both as they are.
pub proof fn law_location_tells_where(what: Seq<char>, runtime: Runtime)
    ensures
        starts_with(located(what, runtime), what),
        contains(located(what, runtime), runtime.base_url@),
        contains(located(what, runtime), decimal(runtime.pid as nat)),
{
    let text = located(what, runtime);
    let pid = decimal(runtime.pid as nat);
    let none = Seq::<char>::empty();
    let behind = runtime.base_url@ + " (PID "@ + pid + ")"@;
    law_prefix_is_the_beginning(what, behind, none);
    assert(what + behind =~= text);
    let behind_url = " (PID "@ + pid + ")"@;
    law_part_stands_between(what, runtime.base_url@, behind_url, none);
    assert(what + runtime.base_url@ + behind_url =~= text);
    law_part_stands_between(what + runtime.base_url@ + " (PID "@, pid, ")"@, none);
}

/// A start in the background succeeds exactly where, in time and before its process ended, the
/// gateway that was started answers. It fails where the process ends or where it took too long,
/// and is looked at again in every other case. What is said holds the address, the status of
/// the process and the place of the log as they are.
pub proof fn law_start_succeeds_with_its_own_gateway(
    looks: u32,
    ended: Option<Seq<char>>,
    running: Option<Runtime>,
    child: u32,
    log: Seq<char>,
)
    ensures
        ({
            let next = start_look_of(looks, ended, running, child, log);
            &&& next matches Ok(LookView::Done(text)) ==> {
                &&& looks < 240 && ended is None && running is Some && running->0.pid == child
                &&& contains(text, running->0.base_url@)
                &&& contains(text, log)
            }
            &&& looks < 240 && ended is None && running is Some && running->0.pid == child
                ==> next is Ok && next->Ok_0 is Done
            &&& looks < 240 && ended is None && !(running is Some && running->0.pid == child)
                ==> next == Ok::<LookView, StartErrorView>(LookView::Again)
            &&& looks < 240 && ended is Some ==> next is Err && next->Err_0 is Exited && contains(
                next->Err_0->Exited_0,
                ended->0,
            ) && contains(next->Err_0->Exited_0, log)
            &&& looks >= 240 ==> next is Err && next->Err_0 is TimedOut && contains(
                next->Err_0->TimedOut_0,
                log,
            )
        }),
{
    let none = Seq::<char>::empty();
    if looks >= 240 {
        let head = "Background startup timed out. See "@;
        law_part_stands_between(head, log, none, none);
        assert(head + log + none =~= head + log);
    } else if ended is Some {
        let head = "Background gprox exited ("@;
        let text = head + ended->0 + "). See "@ + log;
        law_part_stands_between(head, ended->0, "). See "@ + log, none);
        assert(head + ended->0 + ("). See "@ + log) =~= text);
        law_part_stands_between(head + ended->0 + "). See "@, log, none, none);
        assert(head + ended->0 + "). See "@ + log + none =~= text);
    } else if running is Some {
        let url = running->0.base_url@;
        let head = "gprox running in background: "@;
        let place = located(head, running->0);
        let text = place + "\nKey: gprox key\nLog: "@ + log;
        law_part_stands_between(place + "\nKey: gprox key\nLog: "@, log, none, none);
        assert(place + "\nKey: gprox key\nLog: "@ + log + none =~= text);
        let behind = " (PID "@ + decimal(running->0.pid as nat) + ")"@
            + "\nKey: gprox key\nLog: "@ + log;
        law_part_stands_between(head, url, behind, none);
        assert(head + url + behind =~= text);
    }
}

/// A gateway that answers is told to stop, and only such a one. One that holds its lock without
/// an answer is left alone: it is said to be starting where it left no word of itself, and not
/// to be reached where it did. Otherwise there is nothing to stop.
pub proof fn law_stop_goes_by_what_is_found(known: bool, running: bool, locked: bool)
    ensures
        ({
            let plan = stop_plan_of(known, running, locked);
            &&& known && running <==> plan == Ok::<StopPlanView, Seq<char>>(StopPlanView::Ask)
            &&& !known && locked ==> plan == Err::<StopPlanView, Seq<char>>(
                "gprox is initializing; retry stop shortly"@,
            )
            &&& known && !running && locked ==> plan == Err::<StopPlanView, Seq<char>>(
                "gprox holds its lock but management endpoint is unavailable; no process was force-killed"@,
            )
            &&& !known && !locked ==> plan == Ok::<StopPlanView, Seq<char>>(
                StopPlanView::Done("gprox is stopped"@),
            )
            &&& known && !running && !locked ==> plan == Ok::<StopPlanView, Seq<char>>(
                StopPlanView::Done("gprox is stopped (stale runtime state)"@),
            )
        }),
{
}

/// A gateway that was told to stop is looked at a hundred times, until its lock is free.
pub proof fn law_stopping_is_watched(looks: u32, free: bool)
    ensures
        looks < 100 && free ==> stop_look_of(looks, free) == Ok::<LookView, Seq<char>>(
            LookView::Done("gprox stopped"@),
        ),
        looks < 100 && !free ==> stop_look_of(looks, free) == Ok::<LookView, Seq<char>>(
            LookView::Again,
        ),
        looks >= 100 ==> stop_look_of(looks, free) is Err,
{
}

} // verus!
