//! The pure steps of runtime-state assembly: validating the settings,
//! deriving the effective cache URL and summarising the bus endpoint.

use vstd::prelude::*;
use vstd::string::*;
use crate::conf::Settings;
use crate::text::{has_prefix, starts_with, tail_from, trim_of, trimmed};

verus! {

/// A setting that must not be empty.
#[derive(Debug, Clone, Copy, PartialEq, Eq, Structural)]
pub enum RequiredVar {
    Project,
    Name,
    DatabaseUrl,
    CacheUrl,
    BusUrl,
}

/// Why the settings cannot be used.
#[derive(Debug, Clone, Copy, PartialEq, Eq, Structural)]
pub enum SettingsError {
    /// The variable is unset or empty.
    Missing(RequiredVar),
}

/// The environment variable behind each required setting.
pub open spec fn env_name_of(v: RequiredVar) -> Seq<char> {
    match v {
        RequiredVar::Project => "PROJECT"@,
        RequiredVar::Name => "NAME"@,
        RequiredVar::DatabaseUrl => "DATABASE_URL"@,
        RequiredVar::CacheUrl => "CACHE_URL"@,
        RequiredVar::BusUrl => "BUS_URL"@,
    }
}

impl RequiredVar {
    /// The name of the environment variable that sets it.
    pub fn env_name(&self) -> (r: &'static str)
        ensures
            r@ == env_name_of(*self),
    {
        match self {
            RequiredVar::Project => "PROJECT",
            RequiredVar::Name => "NAME",
            RequiredVar::DatabaseUrl => "DATABASE_URL",
            RequiredVar::CacheUrl => "CACHE_URL",
            RequiredVar::BusUrl => "BUS_URL",
        }
    }
}

/// The first required setting that is empty, in the order project, name,
/// database URL, cache URL, bus URL.
pub open spec fn first_missing(s: Settings) -> Option<RequiredVar> {
    if s.project@.len() == 0 {
        Some(RequiredVar::Project)
    } else if s.name@.len() == 0 {
        Some(RequiredVar::Name)
    } else if s.database_url@.len() == 0 {
        Some(RequiredVar::DatabaseUrl)
    } else if s.cache_url@.len() == 0 {
        Some(RequiredVar::CacheUrl)
    } else if s.bus_url@.len() == 0 {
        Some(RequiredVar::BusUrl)
    } else {
        None
    }
}

/// Checks the required settings and fails on the first one that is empty.
pub fn validate_settings(settings: &Settings) -> (r: Result<(), SettingsError>)
    ensures
        first_missing(*settings) is None ==> r is Ok,
        first_missing(*settings) matches Some(v) ==> r == Err::<(), SettingsError>(
            SettingsError::Missing(v),
        ),
{
    if settings.project.as_str().is_empty() {
        return Err(SettingsError::Missing(RequiredVar::Project));
    }
    if settings.name.as_str().is_empty() {
        return Err(SettingsError::Missing(RequiredVar::Name));
    }
    if settings.database_url.as_str().is_empty() {
        return Err(SettingsError::Missing(RequiredVar::DatabaseUrl));
    }
    if settings.cache_url.as_str().is_empty() {
        return Err(SettingsError::Missing(RequiredVar::CacheUrl));
    }
    if settings.bus_url.as_str().is_empty() {
        return Err(SettingsError::Missing(RequiredVar::BusUrl));
    }
    Ok(())
}

/// Validation reports the first missing setting alone: with every required
/// variable unset it fails on the project, whatever else is missing.
pub proof fn lemma_all_unset_fails_on_project(s: Settings)
    requires
        s.project@.len() == 0,
        s.name@.len() == 0,
        s.database_url@.len() == 0,
        s.cache_url@.len() == 0,
        s.bus_url@.len() == 0,
    ensures
        first_missing(s) == Some(RequiredVar::Project),
{
}

/// A character that ends the authority part of a URL.
pub open spec fn ends_authority(c: char) -> bool {
    c == '/' || c == '?' || c == '#'
}

/// Whether the authority at the start of `rest` (what follows `scheme://` up
/// to the first `/`, `?` or `#`) already holds credentials, that is an `@`.
pub open spec fn has_userinfo(rest: Seq<char>) -> bool {
    exists|i: int|
        0 <= i < rest.len() && rest[i] == '@' && forall|j: int|
            0 <= j < i ==> !ends_authority(#[trigger] rest[j])
}

/// How one character of a password is written in a URL's userinfo: `%`,
/// `/`, `?`, `#` and `@` are percent-encoded, any other character stands as
/// it is.
pub open spec fn userinfo_char_encoded(c: char) -> Seq<char> {
    if c == '%' {
        "%25"@
    } else if c == '/' {
        "%2F"@
    } else if c == '?' {
        "%3F"@
    } else if c == '#' {
        "%23"@
    } else if c == '@' {
        "%40"@
    } else {
        seq![c]
    }
}

/// A password as it is written in a URL's userinfo.
pub open spec fn userinfo_encoded(p: Seq<char>) -> Seq<char>
    decreases p.len(),
{
    if p.len() == 0 {
        Seq::<char>::empty()
    } else {
        userinfo_encoded(p.drop_last()) + userinfo_char_encoded(p.last())
    }
}

/// An encoded password holds neither `@` nor a character that ends the
/// authority.
pub proof fn lemma_userinfo_encoded_safe(p: Seq<char>)
    ensures
        forall|j: int|
            0 <= j < userinfo_encoded(p).len() ==> #[trigger] userinfo_encoded(p)[j] != '@'
                && !ends_authority(userinfo_encoded(p)[j]),
    decreases p.len(),
{
    reveal_strlit("%25");
    reveal_strlit("%2F");
    reveal_strlit("%3F");
    reveal_strlit("%23");
    reveal_strlit("%40");
    if p.len() > 0 {
        let q = p.drop_last();
        lemma_userinfo_encoded_safe(q);
        let a = userinfo_encoded(q);
        let b = userinfo_char_encoded(p.last());
        assert forall|j: int| 0 <= j < (a + b).len() implies (a + b)[j] != '@' && !ends_authority(
            (a + b)[j],
        ) by {
            if j < a.len() {
                assert((a + b)[j] == a[j]);
            } else {
                assert((a + b)[j] == b[j - a.len()]);
            }
        }
    }
}

/// Writes a password as it stands in a URL's userinfo.
pub fn encode_userinfo(p: &str) -> (r: String)
    ensures
        r@ == userinfo_encoded(p@),
{
    let n = p.unicode_len();
    let mut out = String::new();
    let mut i: usize = 0;
    assert(p@.subrange(0, 0) =~= Seq::<char>::empty());
    while i < n
        invariant
            n == p@.len(),
            i <= n,
            out@ == userinfo_encoded(p@.subrange(0, i as int)),
        decreases n - i,
    {
        let c = p.get_char(i);
        proof {
            let next = p@.subrange(0, i + 1);
            assert(next.drop_last() =~= p@.subrange(0, i as int));
            assert(next.last() == c);
        }
        if c == '%' {
            out.append("%25");
        } else if c == '/' {
            out.append("%2F");
        } else if c == '?' {
            out.append("%3F");
        } else if c == '#' {
            out.append("%23");
        } else if c == '@' {
            out.append("%40");
        } else {
            let one = p.substring_char(i, i + 1);
            assert(one@ =~= seq![c]);
            out.append(one);
        }
        i = i + 1;
    }
    assert(p@.subrange(0, n as int) =~= p@);
    out
}

/// `url`, whose scheme prefix is `scheme`, with the encoded `password` as
/// its userinfo, unless its authority already holds credentials.
pub open spec fn inject_password(scheme: Seq<char>, url: Seq<char>, password: Seq<char>) -> Seq<char> {
    let rest = url.subrange(scheme.len() as int, url.len() as int);
    if has_userinfo(rest) {
        url
    } else {
        scheme + ":"@ + userinfo_encoded(password) + "@"@ + rest
    }
}

/// The cache URL with the password, percent-encoded, put in as its userinfo,
/// where a password is
/// set, the scheme is `redis://` or `rediss://` and the authority holds no
/// credentials yet; the URL unchanged otherwise.
pub open spec fn cache_url_with_password(url: Seq<char>, password: Seq<char>) -> Seq<char> {
    if password.len() == 0 {
        url
    } else if has_prefix(url, "redis://"@) {
        inject_password("redis://"@, url, password)
    } else if has_prefix(url, "rediss://"@) {
        inject_password("rediss://"@, url, password)
    } else {
        url
    }
}

/// Whether the authority at the start of `rest` holds an `@`.
fn authority_has_userinfo(rest: &str) -> (r: bool)
    ensures
        r == has_userinfo(rest@),
{
    let n = rest.unicode_len();
    let mut i: usize = 0;
    while i < n
        invariant
            n == rest@.len(),
            i <= n,
            forall|j: int| 0 <= j < i ==> rest@[j] != '@' && !ends_authority(#[trigger] rest@[j]),
        decreases n - i,
    {
        let c = rest.get_char(i);
        if c == '@' {
            return true;
        }
        if c == '/' || c == '?' || c == '#' {
            assert forall|k: int| 0 <= k < rest@.len() && rest@[k] == '@' implies !(forall|j: int|
                0 <= j < k ==> !ends_authority(#[trigger] rest@[j])) by {
                assert(k > i);
                assert(ends_authority(rest@[i as int]));
            }
            return false;
        }
        i = i + 1;
    }
    false
}

/// `url` with `password` injected after its scheme prefix `scheme`.
fn with_password(scheme: &str, url: &str, password: &str) -> (r: String)
    requires
        has_prefix(url@, scheme@),
    ensures
        r@ == inject_password(scheme@, url@, password@),
{
    let rest = tail_from(url, scheme.unicode_len());
    if authority_has_userinfo(rest.as_str()) {
        String::from_str(url)
    } else {
        let encoded = encode_userinfo(password);
        String::from_str(scheme).concat(":").concat(encoded.as_str()).concat("@").concat(rest.as_str())
    }
}

/// The effective cache URL for the settings.
pub fn redis_url_with_password(settings: &Settings) -> (r: String)
    ensures
        r@ == cache_url_with_password(settings.cache_url@, settings.cache_password@),
{
    let url = settings.cache_url.as_str();
    let password = settings.cache_password.as_str();
    if password.is_empty() {
        return settings.cache_url.clone();
    }
    if starts_with(url, "redis://") {
        return with_password("redis://", url, password);
    }
    if starts_with(url, "rediss://") {
        return with_password("rediss://", url, password);
    }
    settings.cache_url.clone()
}

proof fn lemma_injected_has_userinfo(scheme: Seq<char>, url: Seq<char>, password: Seq<char>)
    requires
        has_prefix(url, scheme),
        !has_userinfo(url.subrange(scheme.len() as int, url.len() as int)),
    ensures
        ({
            let once = inject_password(scheme, url, password);
            &&& has_prefix(once, scheme)
            &&& has_userinfo(once.subrange(scheme.len() as int, once.len() as int))
            &&& inject_password(scheme, once, password) == once
        }),
{
    reveal_strlit(":");
    reveal_strlit("@");
    lemma_userinfo_encoded_safe(password);
    let e = userinfo_encoded(password);
    let rest = url.subrange(scheme.len() as int, url.len() as int);
    let once = scheme + ":"@ + e + "@"@ + rest;
    assert(once.subrange(0, scheme.len() as int) =~= scheme);
    let rest2 = once.subrange(scheme.len() as int, once.len() as int);
    assert(rest2 =~= ":"@ + e + "@"@ + rest);
    let k: int = 1 + e.len() as int;
    assert(rest2[k] == '@');
    assert forall|j: int| 0 <= j < k implies !ends_authority(#[trigger] rest2[j]) by {
        if j > 0 {
            assert(rest2[j] == e[j - 1]);
        }
    }
}

/// Password injection is idempotent: a URL whose authority already carries
/// credentials is left as it is, and injecting twice gives what injecting
/// once gives, whatever the password holds.
pub proof fn lemma_cache_url_injection_idempotent(url: Seq<char>, password: Seq<char>)
    ensures
        has_prefix(url, "redis://"@) && has_userinfo(url.subrange("redis://"@.len() as int, url.len() as int))
            ==> cache_url_with_password(url, password) == url,
        has_prefix(url, "rediss://"@) && has_userinfo(url.subrange("rediss://"@.len() as int, url.len() as int))
            ==> cache_url_with_password(url, password) == url,
        cache_url_with_password(cache_url_with_password(url, password), password)
            == cache_url_with_password(url, password),
{
    reveal_strlit("redis://");
    reveal_strlit("rediss://");
    if has_prefix(url, "rediss://"@) {
        assert(url.subrange(0, 9)[5] == url[5]);
        assert(url.subrange(0, 8)[5] == url[5]);
        assert(!has_prefix(url, "redis://"@));
    }
    if password.len() > 0 {
        if has_prefix(url, "redis://"@) {
            if !has_userinfo(url.subrange("redis://"@.len() as int, url.len() as int)) {
                lemma_injected_has_userinfo("redis://"@, url, password);
            }
        } else if has_prefix(url, "rediss://"@) {
            if !has_userinfo(url.subrange("rediss://"@.len() as int, url.len() as int)) {
                lemma_injected_has_userinfo("rediss://"@, url, password);
                let once = cache_url_with_password(url, password);
                assert(once.subrange(0, 8)[5] != "redis://"@[5]);
            }
        }
    }
}

/// A URL that already holds credentials, `scheme://userinfo@rest` with a
/// userinfo in URL form (no raw `/`, `?` or `#`), is left unchanged.
pub proof fn lemma_cache_url_credentials_kept(
    scheme: Seq<char>,
    userinfo: Seq<char>,
    rest: Seq<char>,
    password: Seq<char>,
)
    requires
        scheme == "redis://"@ || scheme == "rediss://"@,
        forall|j: int| 0 <= j < userinfo.len() ==> !ends_authority(#[trigger] userinfo[j]),
    ensures
        cache_url_with_password(scheme + userinfo + "@"@ + rest, password) == scheme + userinfo
            + "@"@ + rest,
{
    reveal_strlit("@");
    reveal_strlit("redis://");
    reveal_strlit("rediss://");
    let url = scheme + userinfo + "@"@ + rest;
    assert(url.subrange(0, scheme.len() as int) =~= scheme);
    let after = url.subrange(scheme.len() as int, url.len() as int);
    assert(after =~= userinfo + "@"@ + rest);
    assert(after[userinfo.len() as int] == '@');
    assert forall|j: int| 0 <= j < userinfo.len() implies !ends_authority(#[trigger] after[j]) by {
        assert(after[j] == userinfo[j]);
    }
    assert(has_userinfo(after));
    if scheme == "rediss://"@ {
        assert(url.subrange(0, 8)[5] == url[5]);
        assert(!has_prefix(url, "redis://"@));
    }
}

/// A URL whose scheme is neither `redis://` nor `rediss://` is never altered.
pub proof fn lemma_cache_url_unknown_scheme_unchanged(url: Seq<char>, password: Seq<char>)
    requires
        !has_prefix(url, "redis://"@),
        !has_prefix(url, "rediss://"@),
    ensures
        cache_url_with_password(url, password) == url,
{
}

/// Whether `url::Url::parse` accepts a string.
pub uninterp spec fn url_parses(raw: Seq<char>) -> bool;

/// The scheme that `url::Url::scheme` gives for a string that parses.
pub uninterp spec fn url_scheme_of(raw: Seq<char>) -> Seq<char>;

/// The host that `url::Url::host_str` gives for a string that parses.
pub uninterp spec fn url_host_of(raw: Seq<char>) -> Option<Seq<char>>;

/// Relies on `url::Url::parse`, then `Url::scheme` and `Url::host_str` on the
/// parsed URL: whether the input parses, and its scheme and host, depend on
/// the input alone.
#[verifier::external_body]
fn url_parts(raw: &str) -> (r: Option<(String, Option<String>)>)
    ensures
        r is Some <==> url_parses(raw@),
        r matches Some(p) ==> p.0@ == url_scheme_of(raw@) && match p.1 {
            Some(h) => url_host_of(raw@) == Some(h@),
            None => url_host_of(raw@) is None,
        },
{
    url::Url::parse(raw).ok().map(|u| (u.scheme().to_string(), u.host_str().map(|h| h.to_string())))
}

/// `scheme://host`, or `(invalid)` for a URL without a host.
pub open spec fn summary_of(scheme: Seq<char>, host: Option<Seq<char>>) -> Seq<char> {
    match host {
        Some(h) => scheme + "://"@ + h,
        None => "(invalid)"@,
    }
}

/// The summary of a parsed URL from its scheme and host.
pub fn summary_of_parts(scheme: &str, host: Option<&str>) -> (r: String)
    ensures
        r@ == summary_of(scheme@, match host { Some(h) => Some(h@), None => None }),
{
    match host {
        Some(h) => String::from_str(scheme).concat("://").concat(h),
        None => String::from_str("(invalid)"),
    }
}

/// A summary of an endpoint URL that is safe to log: `scheme://host`, with
/// no credentials, port or path; `(empty)` for a blank string and
/// `(invalid)` for one that does not parse or has no host.
pub fn safe_url_summary(raw: &str) -> (r: String)
    ensures
        trim_of(raw@).len() == 0 ==> r@ == "(empty)"@,
        trim_of(raw@).len() != 0 && !url_parses(raw@) ==> r@ == "(invalid)"@,
        trim_of(raw@).len() != 0 && url_parses(raw@) ==> r@ == summary_of(
            url_scheme_of(raw@),
            url_host_of(raw@),
        ),
{
    let t = trimmed(raw);
    if t.as_str().is_empty() {
        return String::from_str("(empty)");
    }
    match url_parts(raw) {
        None => String::from_str("(invalid)"),
        Some((scheme, host)) => match host {
            Some(h) => summary_of_parts(scheme.as_str(), Some(h.as_str())),
            None => summary_of_parts(scheme.as_str(), None),
        },
    }
}

/// The summary of a URL that parses depends on its scheme and host alone:
/// two such URLs that differ only in credentials, port, path or query get
/// the same summary.
pub proof fn lemma_summary_depends_on_scheme_and_host(a: Seq<char>, b: Seq<char>)
    requires
        trim_of(a).len() != 0,
        trim_of(b).len() != 0,
        url_parses(a),
        url_parses(b),
        url_scheme_of(a) == url_scheme_of(b),
        url_host_of(a) == url_host_of(b),
    ensures
        summary_of(url_scheme_of(a), url_host_of(a)) == summary_of(url_scheme_of(b), url_host_of(b)),
{
}

} // verus!
