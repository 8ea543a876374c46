//! The settings that are kept between runs.
use crate::failure::Failure;
use crate::text::{characters, is_white_space, joined, lower_hex_digit, white_space};
use vstd::prelude::*;

verus! {

/// An IP address, by its bits.
#[derive(Clone, Copy, PartialEq, Eq, Structural)]
pub enum Host {
    V4(u32),
    V6(u128),
}

/// 127.0.0.1
pub const LOCALHOST_V4: u32 = 0x7f000001;

/// ::1
pub const LOCALHOST_V6: u128 = 1;

/// The settings of the gateway.
pub struct Settings {
    pub host: Host,
    pub port: u16,
    pub codex: Option<std::path::PathBuf>,
    /// The longest time that a request may take, in seconds.
    pub timeout: u64,
    pub max_concurrency: usize,
    pub api_key: String,
}

/// Settings given on the command line; what is not given stays as it is.
pub struct StartArgs {
    pub host: Option<Host>,
    pub port: Option<u16>,
    pub codex: Option<std::path::PathBuf>,
    pub timeout: Option<u64>,
    pub max_concurrency: Option<usize>,
}

#[verifier::ext_equal]
pub struct SettingsView {
    pub host: Host,
    pub port: u16,
    pub codex: Option<std::path::PathBuf>,
    pub timeout: u64,
    pub max_concurrency: usize,
    pub api_key: Seq<char>,
}

impl View for Settings {
    type V = SettingsView;

    open spec fn view(&self) -> SettingsView {
        SettingsView {
            host: self.host,
            port: self.port,
            codex: self.codex,
            timeout: self.timeout,
            max_concurrency: self.max_concurrency,
            api_key: self.api_key@,
        }
    }
}

/// Small hexadecimal digits, so many of them.
pub open spec fn hex_text(text: Seq<char>, length: nat) -> bool {
    text.len() == length && forall|i: int|
        0 <= i < text.len() ==> lower_hex_digit(#[trigger] text[i])
}

/// The two digits of a random identifier that say what kind it is, where it begins at
/// `start`.
pub open spec fn kind_digits(text: Seq<char>, start: int) -> bool {
    let variant = text[start + 16];
    text[start + 12] == '4' && (variant == '8' || variant == '9' || variant == 'a' || variant
        == 'b')
}

/// A random identifier: thirty-two small hexadecimal digits, of which two say what kind
/// of identifier it is.
pub open spec fn random_form(id: Seq<char>) -> bool {
    hex_text(id, 32) && kind_digits(id, 0)
}

/// A credential: two random identifiers, one behind the other.
pub open spec fn token_form(token: Seq<char>) -> bool {
    hex_text(token, 64) && kind_digits(token, 0) && kind_digits(token, 32)
}

/// `uuid::Uuid::new_v4` in its simple form: thirty-two small hexadecimal digits, of
/// which two say what kind of identifier it is. The others are random.
#[verifier::external_body]
pub(crate) fn random_id() -> (id: String)
    ensures
        random_form(id@),
{
    uuid::Uuid::new_v4().simple().to_string()
}

/// A new random credential. Which digits it has beside those that say what kind of
/// identifier it is made of, is left to chance.
pub fn token() -> (token: String)
    ensures
        token_form(token@),
{
    let left = random_id();
    let right = random_id();
    let token = joined(left.as_str(), right.as_str());
    assert forall|i: int| 0 <= i < token@.len() implies lower_hex_digit(#[trigger] token@[i]) by {
        if i < 32 {
            assert(lower_hex_digit(left@[i]));
        } else {
            assert(lower_hex_digit(right@[i - 32]));
        }
    }
    token
}

/// A key that may be used: long enough, in ASCII, and without white space.
pub open spec fn usable_key(key: Seq<char>) -> bool {
    key.len() >= 32 && forall|i: int|
        0 <= i < key.len() ==> (#[trigger] key[i]) <= '\u{7f}' && !white_space(key[i])
}

/// What is wrong with settings, if anything is.
pub open spec fn wrong(settings: SettingsView) -> Option<Seq<char>> {
    if settings.port == 0 || settings.timeout == 0 || settings.max_concurrency == 0 {
        Some("port, timeout and max-concurrency must be greater than zero"@)
    } else if !usable_key(settings.api_key) {
        Some("api_key must contain at least 32 ASCII characters without whitespace"@)
    } else {
        None
    }
}

/// The value given, or else the one there is.
pub open spec fn given_or<T>(given: Option<T>, kept: T) -> T {
    match given {
        Some(value) => value,
        None => kept,
    }
}

/// Settings with those given on the command line in place of the old ones.
pub open spec fn applied(settings: SettingsView, args: StartArgs) -> SettingsView {
    SettingsView {
        host: given_or(args.host, settings.host),
        port: given_or(args.port, settings.port),
        codex: match args.codex {
            Some(path) => Some(path),
            None => settings.codex,
        },
        timeout: given_or(args.timeout, settings.timeout),
        max_concurrency: given_or(args.max_concurrency, settings.max_concurrency),
        api_key: settings.api_key,
    }
}

/// The settings of a first run, with some key.
pub open spec fn first_settings(api_key: Seq<char>) -> SettingsView {
    SettingsView {
        host: Host::V4(LOCALHOST_V4),
        port: 8787,
        codex: None,
        timeout: 300,
        max_concurrency: 2,
        api_key,
    }
}

/// A key as it is made for a first run.
pub open spec fn generated_key(key: Seq<char>) -> bool {
    exists|token: Seq<char>| #[trigger] token_form(token) && key == "sk-gprox-"@ + token
}

impl Default for Settings {
    /// The settings of a first run: local access only, and a new random key.
    fn default() -> (settings: Settings)
        ensures
            generated_key(settings@.api_key),
            settings@ == first_settings(settings@.api_key),
    {
        let token = token();
        let api_key = joined("sk-gprox-", token.as_str());
        assert(token_form(token@));
        Settings {
            host: Host::V4(LOCALHOST_V4),
            port: 8787,
            codex: None,
            timeout: 300,
            max_concurrency: 2,
            api_key,
        }
    }
}

fn is_usable_key(key: &str) -> (result: bool)
    ensures
        result == usable_key(key@),
{
    let list = characters(key);
    if list.len() < 32 {
        return false;
    }
    let mut i: usize = 0;
    while i < list.len()
        invariant
            i <= list.len(),
            list@ == key@,
            forall|j: int| 0 <= j < i ==> (#[trigger] key@[j]) <= '\u{7f}' && !white_space(key@[j]),
        decreases list.len() - i,
    {
        let c = list[i];
        if !(c <= '\u{7f}') || is_white_space(c) {
            assert(!(key@[i as int] <= '\u{7f}' && !white_space(key@[i as int])));
            return false;
        }
        i = i + 1;
    }
    true
}

impl Settings {
    /// Puts the settings given on the command line in place of the old ones, and says
    /// whether the gateway can run with the result. The path of the executable is the
    /// one to keep.
    pub fn apply(&mut self, args: StartArgs) -> (outcome: Result<(), Failure>)
        ensures
            final(self)@ == applied(old(self)@, args),
            match outcome {
                Ok(()) => wrong(final(self)@) is None,
                Err(failure) => wrong(final(self)@) == Some(failure@),
            },
    {
        match args.host {
            Some(host) => {
                self.host = host;
            },
            None => {},
        }
        match args.port {
            Some(port) => {
                self.port = port;
            },
            None => {},
        }
        match args.codex {
            Some(path) => {
                self.codex = Some(path);
            },
            None => {},
        }
        match args.timeout {
            Some(timeout) => {
                self.timeout = timeout;
            },
            None => {},
        }
        match args.max_concurrency {
            Some(max_concurrency) => {
                self.max_concurrency = max_concurrency;
            },
            None => {},
        }
        if self.port == 0 || self.timeout == 0 || self.max_concurrency == 0 {
            return Err(Failure::new("port, timeout and max-concurrency must be greater than zero"));
        }
        if !is_usable_key(self.api_key.as_str()) {
            return Err(
                Failure::new(
                    "api_key must contain at least 32 ASCII characters without whitespace",
                ),
            );
        }
        Ok(())
    }
}

/// The command line that gives no settings.
pub open spec fn no_args() -> StartArgs {
    StartArgs { host: None, port: None, codex: None, timeout: None, max_concurrency: None }
}

/// The gateway can run with the settings of a first run as they are.
pub proof fn law_first_settings_are_usable(api_key: Seq<char>)
    requires
        generated_key(api_key),
    ensures
        wrong(first_settings(api_key)) is None,
{
    let token = choose|token: Seq<char>| #[trigger]
        token_form(token) && api_key == "sk-gprox-"@ + token;
    reveal_strlit("sk-gprox-");
    let prefix = "sk-gprox-"@;
    assert(prefix.len() == 9);
    assert forall|i: int| 0 <= i < api_key.len() implies (#[trigger] api_key[i]) <= '\u{7f}'
        && !white_space(api_key[i]) by {
        if i < 9 {
            assert(api_key[i] == prefix[i]);
        } else {
            assert(lower_hex_digit(token[i - 9]));
        }
    }
}

/// Settings that were given once stay until others are given: a later start without any
/// keeps them all, and giving the same again changes nothing. The key is the same at
/// every start.
pub proof fn law_settings_persist(settings: SettingsView, args: StartArgs)
    ensures
        applied(settings, no_args()) == settings,
        applied(applied(settings, args), no_args()) == applied(settings, args),
        applied(applied(settings, args), args) == applied(settings, args),
        applied(settings, args).api_key == settings.api_key,
{
}

/// What is given on the command line counts, and what is not stays as it is, each setting by
/// itself.
pub proof fn law_given_settings_count(settings: SettingsView, args: StartArgs)
    ensures
        ({
            let result = applied(settings, args);
            &&& args.host is Some ==> result.host == args.host->0
            &&& args.host is None ==> result.host == settings.host
            &&& args.port is Some ==> result.port == args.port->0
            &&& args.port is None ==> result.port == settings.port
            &&& args.codex is Some ==> result.codex == args.codex
            &&& args.codex is None ==> result.codex == settings.codex
            &&& args.timeout is Some ==> result.timeout == args.timeout->0
            &&& args.timeout is None ==> result.timeout == settings.timeout
            &&& args.max_concurrency is Some ==> result.max_concurrency == args.max_concurrency->0
            &&& args.max_concurrency is None ==> result.max_concurrency
                == settings.max_concurrency
            &&& result.api_key == settings.api_key
        }),
{
}

/// The gateway can run with settings exactly where no number among them is zero and the key has
/// at least thirty-two characters, all of them ASCII and none white space. A number that is
/// zero is told of first.
pub proof fn law_settings_that_work(settings: SettingsView)
    ensures
        wrong(settings) is None <==> {
            &&& settings.port >= 1
            &&& settings.timeout >= 1
            &&& settings.max_concurrency >= 1
            &&& settings.api_key.len() >= 32
            &&& forall|i: int|
                0 <= i < settings.api_key.len() ==> (#[trigger] settings.api_key[i]) as int <= 127
                    && !white_space(settings.api_key[i])
        },
        settings.port == 0 || settings.timeout == 0 || settings.max_concurrency == 0 ==> wrong(
            settings,
        ) == Some("port, timeout and max-concurrency must be greater than zero"@),
        settings.port > 0 && settings.timeout > 0 && settings.max_concurrency > 0 && wrong(
            settings,
        ) is Some ==> wrong(settings) == Some(
            "api_key must contain at least 32 ASCII characters without whitespace"@,
        ),
{
    let key = settings.api_key;
    if usable_key(key) {
        assert forall|i: int| 0 <= i < key.len() implies (#[trigger] key[i]) as int <= 127
            && !white_space(key[i]) by {
            assert(key[i] <= '\u{7f}');
        }
    } else if key.len() >= 32 {
        let i = choose|i: int|
            0 <= i < key.len() && !((#[trigger] key[i]) <= '\u{7f}' && !white_space(key[i]));
        assert(!(key[i] as int <= 127 && !white_space(key[i])));
    }
}

/// A first run is for the same machine only, at the port, with the patience and for the number
/// of requests that users are told of, and it finds the program itself.
pub proof fn law_first_run_is_local(api_key: Seq<char>)
    ensures
        first_settings(api_key).host == Host::V4(0x7f00_0001),
        first_settings(api_key).port == 8787,
        first_settings(api_key).timeout == 300,
        first_settings(api_key).max_concurrency == 2,
        first_settings(api_key).codex is None,
        first_settings(api_key).api_key == api_key,
        generated_key(api_key) ==> api_key.len() == 73 && api_key.take(9) == "sk-gprox-"@,
{
    if generated_key(api_key) {
        let token = choose|token: Seq<char>| #[trigger]
            token_form(token) && api_key == "sk-gprox-"@ + token;
        reveal_strlit("sk-gprox-");
        assert("sk-gprox-"@.len() == 9);
        assert(api_key.take(9) =~= "sk-gprox-"@);
    }
}

} // verus!
