use vstd::prelude::*;
use vstd::string::StrSliceExecFns;

verus! {

/// The settings the client runs with.
pub struct Config {
    pub api_token: String,
    pub base_url: String,
    pub default_environment_id: String,
}

/// Why a loaded configuration cannot be used.
#[derive(Clone, Copy, Debug, PartialEq, Eq, Structural)]
pub enum ConfigError {
    MissingApiToken,
    MissingEnvironmentId,
}

pub open spec fn default_base_url() -> Seq<char> {
    "https://app.dynamicauth.com"@
}

impl Default for Config {
    fn default() -> (r: Config)
        ensures
            r.api_token@.len() == 0,
            r.base_url@ == default_base_url(),
            r.default_environment_id@.len() == 0,
    {
        Config {
            api_token: String::new(),
            base_url: String::from_str("https://app.dynamicauth.com"),
            default_environment_id: String::new(),
        }
    }
}

/// The base URL offered when none is given.
pub fn default_base_url_string() -> (r: String)
    ensures
        r@ == default_base_url(),
{
    String::from_str("https://app.dynamicauth.com")
}

/// Accepts a loaded configuration only if it holds an API token and a default
/// environment; the token is looked at first.
pub fn validate_config(config: Config) -> (r: Result<Config, ConfigError>)
    ensures
        config.api_token@.len() == 0 ==> r == Err::<Config, ConfigError>(
            ConfigError::MissingApiToken,
        ),
        config.api_token@.len() != 0 && config.default_environment_id@.len() == 0 ==> r == Err::<
            Config,
            ConfigError,
        >(ConfigError::MissingEnvironmentId),
        config.api_token@.len() != 0 && config.default_environment_id@.len() != 0 ==> r == Ok::<
            Config,
            ConfigError,
        >(config),
{
    if config.api_token.as_str().is_empty() {
        return Err(ConfigError::MissingApiToken);
    }
    if config.default_environment_id.as_str().is_empty() {
        return Err(ConfigError::MissingEnvironmentId);
    }
    Ok(config)
}

/// The number of times `c` occurs in `s`.
pub open spec fn count_char(s: Seq<char>, c: char) -> nat
    decreases s.len(),
{
    if s.len() == 0 {
        0
    } else {
        count_char(s.drop_last(), c) + if s.last() == c {
            1nat
        } else {
            0nat
        }
    }
}

/// An API token is over ten bytes long and starts with `dyn_`.
pub open spec fn valid_api_token(s: &str) -> bool {
    &&& s.len() > 10
    &&& s@.len() >= 4
    &&& s@.take(4) == seq!['d', 'y', 'n', '_']
}

/// An environment identifier has the length of a UUID, 36 bytes, and four dashes.
pub open spec fn valid_environment_id(s: &str) -> bool {
    &&& s.len() == 36
    &&& count_char(s@, '-') == 4
}

pub fn is_valid_api_token(s: &str) -> (r: bool)
    ensures
        r == valid_api_token(s),
{
    if s.len() <= 10 {
        return false;
    }
    if s.unicode_len() < 4 {
        return false;
    }
    let ok = s.get_char(0) == 'd' && s.get_char(1) == 'y' && s.get_char(2) == 'n' && s.get_char(3)
        == '_';
    assert(ok ==> s@.take(4) =~= seq!['d', 'y', 'n', '_']);
    assert(s@.take(4) == seq!['d', 'y', 'n', '_'] ==> s@[0] == 'd' && s@[1] == 'y' && s@[2] == 'n'
        && s@[3] == '_');
    ok
}

pub fn is_valid_environment_id(s: &str) -> (r: bool)
    ensures
        r == valid_environment_id(s),
{
    if s.len() != 36 {
        return false;
    }
    let n = s.unicode_len();
    let mut count: usize = 0;
    let mut i: usize = 0;
    assert(s@.take(0) =~= Seq::<char>::empty());
    while i < n
        invariant
            n == s@.len(),
            i <= n,
            count == count_char(s@.take(i as int), '-'),
            count <= i,
        decreases n - i,
    {
        assert(s@.take(i + 1).drop_last() =~= s@.take(i as int));
        if s.get_char(i) == '-' {
            count = count + 1;
        }
        i = i + 1;
    }
    assert(s@.take(n as int) =~= s@);
    count == 4
}

/// The text of a configuration file holding these three settings.
pub fn config_text(api_token: &str, base_url: &str, default_environment_id: &str) -> (r: String)
    ensures
        r@ == "api_token = \""@ + api_token@ + "\"\nbase_url = \""@ + base_url@
            + "\"\ndefault_environment_id = \""@ + default_environment_id@ + "\"\n"@,
{
    let mut r = String::from_str("api_token = \"");
    r.append(api_token);
    r.append("\"\nbase_url = \"");
    r.append(base_url);
    r.append("\"\ndefault_environment_id = \"");
    r.append(default_environment_id);
    r.append("\"\n");
    r
}

} // verus!
