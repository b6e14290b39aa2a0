//! Process settings, read once from the environment and then held read-only.

use vstd::prelude::*;
use vstd::string::*;
use crate::text::{lower_of, trim_of, trimmed, lowercased, same_text};

verus! {

/// Flat configuration record of the runtime.
#[derive(Debug, Clone)]
pub struct Settings {
    pub project: String,
    pub name: String,
    pub database_url: String,
    pub cache_url: String,
    pub cache_password: String,
    pub bus_url: String,
    pub otlp_host: String,
    pub otlp_port: String,
    pub use_telemetry: bool,
    pub http_port: String,
}

/// The value of `key` in an environment given as a list of pairs: the first
/// pair with that key, or the empty string where none has it.
pub open spec fn env_value(vars: Seq<(String, String)>, key: Seq<char>) -> Seq<char>
    decreases vars.len(),
{
    if vars.len() == 0 {
        Seq::<char>::empty()
    } else if vars[0].0@ == key {
        vars[0].1@
    } else {
        env_value(vars.drop_first(), key)
    }
}

/// The words that switch a flag on.
pub open spec fn is_truthy(word: Seq<char>) -> bool {
    word == "1"@ || word == "true"@ || word == "yes"@ || word == "on"@
}

/// A flag's value: its trimmed, lowercased text is one of the truthy words.
pub open spec fn flag_of(value: Seq<char>) -> bool {
    is_truthy(lower_of(trim_of(value)))
}

/// The settings that an environment describes, field by field.
pub open spec fn settings_from(vars: Seq<(String, String)>, s: Settings) -> bool {
    &&& s.project@ == env_value(vars, "PROJECT"@)
    &&& s.name@ == env_value(vars, "NAME"@)
    &&& s.database_url@ == env_value(vars, "DATABASE_URL"@)
    &&& s.cache_url@ == env_value(vars, "CACHE_URL"@)
    &&& s.cache_password@ == env_value(vars, "CACHE_PASSWORD"@)
    &&& s.bus_url@ == env_value(vars, "BUS_URL"@)
    &&& s.otlp_host@ == env_value(vars, "OTLP_HOST"@)
    &&& s.otlp_port@ == env_value(vars, "OTLP_PORT"@)
    &&& s.use_telemetry == flag_of(env_value(vars, "USE_TELEMETRY"@))
    &&& s.http_port@ == env_value(vars, "HTTP_PORT"@)
}

/// The HTTP port to listen on: `http_port`, or `8080` where it is empty.
pub open spec fn http_port_of(http_port: Seq<char>) -> Seq<char> {
    if http_port.len() == 0 {
        "8080"@
    } else {
        http_port
    }
}

/// The value of `key` in `vars`, or the empty string.
pub fn env_var(vars: &Vec<(String, String)>, key: &str) -> (r: String)
    ensures
        r@ == env_value(vars@, key@),
{
    let n = vars.len();
    let mut i: usize = 0;
    assert(vars@.subrange(0, n as int) =~= vars@);
    while i < n
        invariant
            n == vars@.len(),
            i <= n,
            env_value(vars@, key@) == env_value(vars@.subrange(i as int, n as int), key@),
        decreases n - i,
    {
        proof {
            let rest = vars@.subrange(i as int, n as int);
            assert(rest.drop_first() =~= vars@.subrange(i + 1, n as int));
            assert(rest[0] == vars@[i as int]);
        }
        if same_text(vars[i].0.as_str(), key) {
            return vars[i].1.clone();
        }
        i = i + 1;
    }
    assert(vars@.subrange(n as int, n as int).len() == 0);
    String::new()
}

/// Whether `word` is one of `1`, `true`, `yes`, `on`, exactly.
pub fn is_truthy_word(word: &str) -> (r: bool)
    ensures
        r == is_truthy(word@),
{
    same_text(word, "1") || same_text(word, "true") || same_text(word, "yes") || same_text(
        word,
        "on",
    )
}

/// Reads a flag: surrounding whitespace and case are ignored.
pub fn parse_bool(value: &str) -> (r: bool)
    ensures
        r == flag_of(value@),
        trim_of(value@).len() == 0 ==> !r,
{
    let t = trimmed(value);
    let l = lowercased(t.as_str());
    proof {
        reveal_strlit("1");
        reveal_strlit("true");
        reveal_strlit("yes");
        reveal_strlit("on");
    }
    is_truthy_word(l.as_str())
}

impl Settings {
    /// Builds the settings from an environment given as a list of pairs;
    /// an absent variable reads as empty (or `false` for the flag).
    pub fn from_env(vars: &Vec<(String, String)>) -> (r: Settings)
        ensures
            settings_from(vars@, r),
            env_value(vars@, "USE_TELEMETRY"@).len() == 0 ==> !r.use_telemetry,
    {
        let telemetry = env_var(vars, "USE_TELEMETRY");
        Settings {
            project: env_var(vars, "PROJECT"),
            name: env_var(vars, "NAME"),
            database_url: env_var(vars, "DATABASE_URL"),
            cache_url: env_var(vars, "CACHE_URL"),
            cache_password: env_var(vars, "CACHE_PASSWORD"),
            bus_url: env_var(vars, "BUS_URL"),
            otlp_host: env_var(vars, "OTLP_HOST"),
            otlp_port: env_var(vars, "OTLP_PORT"),
            use_telemetry: parse_bool(telemetry.as_str()),
            http_port: env_var(vars, "HTTP_PORT"),
        }
    }

    /// The port for the status server, `8080` by default.
    pub fn http_port_or_default(&self) -> (r: String)
        ensures
            r@ == http_port_of(self.http_port@),
    {
        if self.http_port.as_str().is_empty() {
            String::from_str("8080")
        } else {
            self.http_port.clone()
        }
    }
}

/// Loads the settings once: the first call fills `cache` from `vars`, and
/// later calls leave it as it is.
pub fn load_settings(cache: &mut Option<Settings>, vars: &Vec<(String, String)>)
    ensures
        (*old(cache)) is Some ==> *final(cache) == *old(cache),
        (*old(cache)) is None ==> (*final(cache)) is Some && settings_from(vars@, (*final(cache))->0),
{
    if cache.is_none() {
        *cache = Some(Settings::from_env(vars));
    }
}

} // verus!
