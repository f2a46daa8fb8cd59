//! How an endpoint's stored address and credentials become the URLs, headers
//! and environment that requests and harnesses use.

use vstd::prelude::*;
use crate::state::EvalEndpoint;
use crate::text::{
    after_last_char, chars_of, contains, contains_chars, decimal, ends_with, has_suffix, owned,
    parse_unsigned, parse_unsigned_upto, push_decimal, push_signed_decimal, rfind_char, lemma_rfind_char_bound,
    rfind_char_in, signed_decimal, str_eq, string_of, strip_suffix, trim_end_char,
    trim_end_char_len,
};

verus! {

/// The stored base URL without trailing slashes.
pub open spec fn trimmed_base(url: Seq<char>) -> Seq<char> {
    trim_end_char(url, '/')
}

/// The API root of a base URL: trailing slashes dropped, then one `/v1`
/// suffix dropped (stored base URLs may or may not include it).
pub open spec fn api_root_of(url: Seq<char>) -> Seq<char> {
    match strip_suffix(trimmed_base(url), "/v1"@) {
        Some(r) => r,
        None => trimmed_base(url),
    }
}

/// The chat-completions URL of a base URL: the base itself when it already
/// names `/chat/completions`, else the API root followed by
/// `/v1/chat/completions` (Ollama bases included).
pub open spec fn chat_url_of(url: Seq<char>) -> Seq<char> {
    if has_suffix(trimmed_base(url), "/chat/completions"@) {
        trimmed_base(url)
    } else {
        api_root_of(url) + "/v1/chat/completions"@
    }
}

/// The model name sent in requests: the endpoint's model, or `default`.
pub open spec fn model_name_of(ep: EvalEndpoint) -> Seq<char> {
    match ep.model {
        Some(m) => m@,
        None => "default"@,
    }
}

/// An optional text, or `fallback` when it is absent.
pub open spec fn text_or(t: Option<String>, fallback: Seq<char>) -> Seq<char> {
    match t {
        Some(s) => s@,
        None => fallback,
    }
}

/// The port named at the end of an API root, as the sandbox rewrite reads it.
pub open spec fn sandbox_port_of(root: Seq<char>) -> nat {
    match parse_unsigned(trim_end_char(after_last_char(root, ':'), '/'), 0xffff_ffff) {
        Some(p) => p,
        None => 8095,
    }
}

/// The base URL under which a harness running in a docker sandbox reaches
/// the endpoint: a loopback host is replaced by the docker0 gateway,
/// keeping the port (8095 when none can be read).
pub open spec fn sandbox_url_of(url: Seq<char>) -> Seq<char> {
    let root = api_root_of(url);
    if contains(root, "127.0.0.1"@) || contains(root, "localhost"@) {
        "http://172.17.0.1:"@ + decimal(sandbox_port_of(root)) + "/v1"@
    } else {
        root + "/v1"@
    }
}

/// The characters of `url` up to its API root, as bounds into `v`.
fn api_root_bounds(v: &Vec<char>) -> (r: (usize, usize))
    ensures
        r.1 <= r.0 <= v.len(),
        r.0 == trimmed_base(v@).len(),
        v@.subrange(0, r.0 as int) == trimmed_base(v@),
        v@.subrange(0, r.1 as int) == api_root_of(v@),
{
    let n = trim_end_char_len(v, '/');
    let base = string_of(v, 0, n);
    let bv = chars_of(base.as_str());
    let suffix = chars_of("/v1");
    if ends_with(&bv, &suffix) {
        (n, n - suffix.len())
    } else {
        (n, n)
    }
}

/// The API root of a base URL.
pub fn api_root(base_url: &str) -> (r: String)
    ensures
        r@ == api_root_of(base_url@),
{
    let v = chars_of(base_url);
    let (_, m) = api_root_bounds(&v);
    string_of(&v, 0, m)
}

/// The API root of an endpoint's base URL.
pub fn endpoint_base_root(endpoint: &EvalEndpoint) -> (r: String)
    ensures
        r@ == api_root_of(endpoint.base_url@),
{
    api_root(endpoint.base_url.as_str())
}

/// The chat-completions URL of an endpoint.
pub fn endpoint_chat_url(ep: &EvalEndpoint) -> (r: String)
    ensures
        r@ == chat_url_of(ep.base_url@),
{
    let v = chars_of(ep.base_url.as_str());
    let (n, m) = api_root_bounds(&v);
    let base = string_of(&v, 0, n);
    let bv = chars_of(base.as_str());
    let tail = chars_of("/chat/completions");
    if ends_with(&bv, &tail) {
        base
    } else {
        let mut url = string_of(&v, 0, m);
        url.push_str("/v1/chat/completions");
        url
    }
}

/// The model name sent in requests.
pub fn model_name(endpoint: &EvalEndpoint) -> (r: String)
    ensures
        r@ == model_name_of(*endpoint),
{
    match &endpoint.model {
        Some(m) => m.clone(),
        None => owned("default"),
    }
}

/// An optional text, or `fallback` when it is absent.
pub fn text_or_else(t: &Option<String>, fallback: &str) -> (r: String)
    ensures
        r@ == text_or(*t, fallback@),
{
    match t {
        Some(s) => s.clone(),
        None => owned(fallback),
    }
}

/// The base URL by which a sandboxed harness reaches the endpoint.
pub fn endpoint_sandbox_url(endpoint: &EvalEndpoint) -> (r: String)
    ensures
        r@ == sandbox_url_of(endpoint.base_url@),
{
    let root = endpoint_base_root(endpoint);
    let rv = chars_of(root.as_str());
    let lo = chars_of("127.0.0.1");
    let lh = chars_of("localhost");
    if contains_chars(&rv, &lo) || contains_chars(&rv, &lh) {
        let start: usize = match rfind_char_in(&rv, ':') {
            Some(i) => i + 1,
            None => 0,
        };
        proof {
            lemma_rfind_char_bound(rv@, ':');
            if rfind_char(rv@, ':') is None {
                assert(rv@.subrange(0, rv@.len() as int) =~= rv@);
            }
        }
        assert(rv@.subrange(start as int, rv@.len() as int) == after_last_char(rv@, ':'));
        let after = string_of(&rv, start, rv.len());
        let av = chars_of(after.as_str());
        let k = trim_end_char_len(&av, '/');
        let port_text = string_of(&av, 0, k);
        let port: u64 = match parse_unsigned_upto(port_text.as_str(), 0xffff_ffff) {
            Some(p) => p,
            None => 8095,
        };
        assert(port as nat == sandbox_port_of(rv@));
        let mut url = owned("http://172.17.0.1:");
        push_decimal(&mut url, port);
        url.push_str("/v1");
        url
    } else {
        let mut url = root;
        url.push_str("/v1");
        url
    }
}

/// The environment that tells a Python driver how to authenticate:
/// `OPENAI_API_KEY` holds the key (`none` without one) and `CCGW_PROVIDER`
/// the provider (`generic` without one).
pub fn endpoint_driver_env(endpoint: &EvalEndpoint) -> (r: Vec<(&'static str, String)>)
    ensures
        r.len() == 2,
        r[0].0@ == "OPENAI_API_KEY"@,
        r[0].1@ == text_or(endpoint.api_key, "none"@),
        r[1].0@ == "CCGW_PROVIDER"@,
        r[1].1@ == text_or(endpoint.provider, "generic"@),
{
    let mut r: Vec<(&'static str, String)> = Vec::new();
    r.push(("OPENAI_API_KEY", text_or_else(&endpoint.api_key, "none")));
    r.push(("CCGW_PROVIDER", text_or_else(&endpoint.provider, "generic")));
    r
}

/// How a request to an endpoint is authenticated.
#[derive(Debug, Clone)]
pub enum AuthHeader {
    /// no key stored, or an empty one: no header
    NoAuth,
    /// a ccgw gateway: the key goes in `x-ccgw-key`
    CcgwKey(String),
    /// anything else: the key is sent as a bearer token
    Bearer(String),
}

/// The header an endpoint's requests carry.
pub open spec fn auth_of(ep: EvalEndpoint) -> AuthHeader {
    let key = text_or(ep.api_key, Seq::empty());
    if key.len() == 0 {
        AuthHeader::NoAuth
    } else if ep.provider matches Some(p) && p@ == "ccgw"@ {
        AuthHeader::CcgwKey(ep.api_key->0)
    } else {
        AuthHeader::Bearer(ep.api_key->0)
    }
}

/// Decides how a request to the endpoint is authenticated.
pub fn endpoint_auth(ep: &EvalEndpoint) -> (r: AuthHeader)
    ensures
        r == auth_of(*ep),
{
    match &ep.api_key {
        None => AuthHeader::NoAuth,
        Some(key) => {
            if key.as_str().is_empty() {
                AuthHeader::NoAuth
            } else {
                let ccgw = match &ep.provider {
                    Some(p) => str_eq(p.as_str(), "ccgw"),
                    None => false,
                };
                if ccgw {
                    AuthHeader::CcgwKey(key.clone())
                } else {
                    AuthHeader::Bearer(key.clone())
                }
            }
        },
    }
}

/// The text of the env file handed to a sandboxed harness.
pub open spec fn env_file_text_of(ep: EvalEndpoint) -> Seq<char> {
    "OPENAI_API_KEY="@ + text_or(ep.api_key, "none"@) + "\nOPENAI_BASE_URL="@
        + sandbox_url_of(ep.base_url@) + "\n"@
}

/// The env file given to harbor and pier: the key and the sandbox URL.
pub fn endpoint_env_file_text(endpoint: &EvalEndpoint) -> (r: String)
    ensures
        r@ == env_file_text_of(*endpoint),
{
    let mut r = owned("OPENAI_API_KEY=");
    let key = text_or_else(&endpoint.api_key, "none");
    r.push_str(key.as_str());
    r.push_str("\nOPENAI_BASE_URL=");
    let url = endpoint_sandbox_url(endpoint);
    r.push_str(url.as_str());
    r.push_str("\n");
    r
}

/// The name of a run's env file: `<prefix>-run-<id>.env`.
pub fn env_file_name(prefix: &str, run_id: i64) -> (r: String)
    ensures
        r@ == prefix@ + "-run-"@ + signed_decimal(run_id as int) + ".env"@,
{
    let mut r = owned(prefix);
    r.push_str("-run-");
    push_signed_decimal(&mut r, run_id);
    r.push_str(".env");
    r
}

/// The label a new run is filed under: the endpoint's model, or its name.
pub fn run_model_label(endpoint: &EvalEndpoint) -> (r: String)
    ensures
        r@ == text_or(endpoint.model, endpoint.name@),
{
    match &endpoint.model {
        Some(m) => m.clone(),
        None => endpoint.name.clone(),
    }
}

/// A stored base URL names the same API root with or without `/v1` (and
/// with or without a slash after it): for a URL that ends neither in `/`
/// nor in `/v1`, the root is the URL itself either way.
pub proof fn lemma_api_root_ignores_v1(url: Seq<char>)
    requires
        url.len() > 0,
        url.last() != '/',
        !has_suffix(url, "/v1"@),
    ensures
        api_root_of(url) == url,
        api_root_of(url + "/v1"@) == url,
        api_root_of(url + "/v1/"@) == url,
{
    reveal_strlit("/v1");
    reveal_strlit("/v1/");
    let a = url + "/v1"@;
    let b = url + "/v1/"@;
    assert(a.last() == '1');
    assert(trim_end_char(a, '/') == a);
    assert(b.last() == '/');
    assert(b.drop_last() == a);
    assert(trim_end_char(b, '/') == a);
    assert(a.subrange(a.len() - 3, a.len() as int) == "/v1"@);
    assert(a.subrange(0, a.len() - 3) == url);
    assert(trim_end_char(url, '/') == url);
}

/// Every chat URL ends with `/chat/completions`.
pub proof fn lemma_chat_url_suffix(url: Seq<char>)
    ensures
        has_suffix(chat_url_of(url), "/chat/completions"@),
{
    reveal_strlit("/v1/chat/completions");
    reveal_strlit("/chat/completions");
    if !has_suffix(trimmed_base(url), "/chat/completions"@) {
        let r = api_root_of(url) + "/v1/chat/completions"@;
        assert(r.subrange(r.len() - 17, r.len() as int) == "/chat/completions"@);
    }
}

/// Every sandbox URL ends with `/v1`.
pub proof fn lemma_sandbox_url_suffix(url: Seq<char>)
    ensures
        has_suffix(sandbox_url_of(url), "/v1"@),
{
    reveal_strlit("/v1");
    let r = sandbox_url_of(url);
    assert(r.subrange(r.len() - 3, r.len() as int) == "/v1"@);
}

} // verus!
