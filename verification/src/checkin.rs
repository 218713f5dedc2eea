//! The check-in client's verified half: resolving the endpoint prefix
//! from the check's identification, building the start and completion
//! requests, and composing the identifying client label. Sending the
//! requests is left to an unverified transport.
use crate::text::{dec_digits, lemma_decode_ascii_bytes, lemma_dec_digits_ascii, push_dec_u64,
    utf8_string};
use vstd::prelude::*;
use vstd::string::StringExecFns;
use vstd::utf8::is_ascii_chars;

verus! {

/// How the monitored check is identified to the endpoint.
pub enum CheckId {
    /// By the check's own unique key.
    Uuid(String),
    /// By a project ping key together with the check's slug name.
    Slugged { ping_key: String, slug: String },
}

/// The URL prefix an identification resolves to under a base URL:
/// `base/key` for a unique key, `base/ping_key/slug` for a slug.
pub open spec fn url_prefix_chars(base_url: Seq<char>, id: CheckId) -> Seq<char> {
    match id {
        CheckId::Uuid(key) => base_url + "/"@ + key@,
        CheckId::Slugged { ping_key, slug } => base_url + "/"@ + ping_key@ + "/"@ + slug@,
    }
}

/// Resolves the URL prefix that every notification of one invocation
/// targets.
pub fn url_prefix(base_url: &str, id: &CheckId) -> (r: String)
    ensures
        r@ == url_prefix_chars(base_url@, *id),
{
    let mut r = String::from_str(base_url);
    r.append("/");
    match id {
        CheckId::Uuid(key) => {
            r.append(key.as_str());
        },
        CheckId::Slugged { ping_key, slug } => {
            r.append(ping_key.as_str());
            r.append("/");
            r.append(slug.as_str());
        },
    }
    assert(r@ =~= url_prefix_chars(base_url@, *id));
    r
}

/// The HTTP method of a check-in request.
#[derive(Clone, Copy, PartialEq, Eq, Structural, Debug)]
pub enum Method {
    Get,
    Post,
}

/// One check-in request, ready for a transport to send.
pub struct Request {
    pub method: Method,
    pub url: String,
    /// The text to send as the request body; absent when there is
    /// nothing to report, so that no body at all is sent.
    pub body: Option<String>,
}

/// The decimal rendering of `n`, as characters.
pub open spec fn dec_chars(n: nat) -> Seq<char> {
    Seq::new(dec_digits(n).len(), |i: int| dec_digits(n)[i] as char)
}

/// Renders an exit code in decimal.
fn code_string(code: u8) -> (r: String)
    ensures
        r@ == dec_chars(code as nat),
{
    let mut digits: Vec<u8> = Vec::new();
    push_dec_u64(&mut digits, code as u64);
    proof {
        lemma_dec_digits_ascii(code as nat);
        lemma_decode_ascii_bytes(dec_digits(code as nat));
    }
    let r = utf8_string(digits);
    assert(r@ =~= dec_chars(code as nat));
    r
}

/// The URL of a start notification: the prefix, the start path, and the
/// correlation token as a query parameter.
pub open spec fn start_url_chars(prefix: Seq<char>, run_id: Seq<char>) -> Seq<char> {
    prefix + "/start?rid="@ + run_id
}

/// Builds the read-style notification that announces the start of a run
/// under its correlation token; it never carries a body.
pub fn start_request(prefix: &str, run_id: &str) -> (r: Request)
    ensures
        r.method == Method::Get,
        r.url@ == start_url_chars(prefix@, run_id@),
        r.body is None,
{
    let mut url = String::from_str(prefix);
    url.append("/start?rid=");
    url.append(run_id);
    assert(url@ =~= start_url_chars(prefix@, run_id@));
    Request { method: Method::Get, url, body: Option::None }
}

/// The path element naming the reported exit code: its decimal digits,
/// or the log marker when no code is reported.
pub open spec fn code_path_chars(code: Option<u8>) -> Seq<char> {
    match code {
        Option::Some(c) => dec_chars(c as nat),
        Option::None => "log"@,
    }
}

/// The view of an optional borrowed run identifier.
pub open spec fn opt_chars(run_id: Option<&String>) -> Option<Seq<char>> {
    match run_id {
        Option::Some(s) => Option::Some(s@),
        Option::None => Option::None,
    }
}

/// The URL of a completion notification: the prefix, the exit code or
/// log path, and the correlation token when one was issued.
pub open spec fn complete_url_chars(
    prefix: Seq<char>,
    code: Option<u8>,
    run_id: Option<Seq<char>>,
) -> Seq<char> {
    let base = prefix + "/"@ + code_path_chars(code);
    match run_id {
        Option::Some(rid) => base + "?rid="@ + rid,
        Option::None => base,
    }
}

/// Builds the write-style notification that records the outcome of a
/// run: posted to the exit-code path (or the log path when no code is
/// reported), carrying the payload text as its body only when the text
/// is non-empty.
pub fn complete_request(prefix: &str, run_id: Option<&String>, code: Option<u8>, output: &str) -> (r:
    Request)
    ensures
        r.method == Method::Post,
        r.url@ == complete_url_chars(prefix@, code, opt_chars(run_id)),
        output@.len() == 0 ==> r.body is None,
        output@.len() > 0 ==> r.body is Some && (r.body->Some_0)@ == output@,
{
    let mut url = String::from_str(prefix);
    url.append("/");
    match code {
        Option::Some(c) => {
            let digits = code_string(c);
            url.append(digits.as_str());
        },
        Option::None => {
            url.append("log");
        },
    }
    match run_id {
        Option::Some(rid) => {
            url.append("?rid=");
            url.append(rid.as_str());
        },
        Option::None => {
        },
    }
    assert(url@ =~= complete_url_chars(prefix@, code, opt_chars(run_id)));
    let body = if output.is_empty() {
        Option::None
    } else {
        Option::Some(String::from_str(output))
    };
    Request { method: Method::Post, url, body }
}

/// The view of an optional borrowed string.
pub open spec fn opt_str_chars(s: Option<&str>) -> Option<Seq<char>> {
    match s {
        Option::Some(s) => Option::Some(s@),
        Option::None => Option::None,
    }
}

/// The identifying client label: the program name, the host identity
/// when one is known, and a user-supplied custom label as a prefix.
pub open spec fn user_agent_chars(custom: Option<Seq<char>>, host: Option<Seq<char>>) -> Seq<
    char,
> {
    let base = match host {
        Option::Some(h) => "task_mon"@ + " - "@ + h,
        Option::None => "task_mon"@,
    };
    match custom {
        Option::Some(c) => c + " ("@ + base + ")"@,
        Option::None => base,
    }
}

/// Constructs the identifying client label sent with every request,
/// from the host identity (when one is known) and an optional custom
/// label.
pub fn make_user_agent(custom: Option<&str>, host: Option<&str>) -> (r: String)
    ensures
        r@ == user_agent_chars(opt_str_chars(custom), opt_str_chars(host)),
{
    let mut base = String::from_str("task_mon");
    match host {
        Option::Some(h) => {
            base.append(" - ");
            base.append(h);
        },
        Option::None => {
        },
    }
    match custom {
        Option::Some(c) => {
            let mut r = String::from_str(c);
            r.append(" (");
            r.append(base.as_str());
            r.append(")");
            assert(r@ =~= user_agent_chars(opt_str_chars(custom), opt_str_chars(host)));
            r
        },
        Option::None => {
            assert(base@ =~= user_agent_chars(opt_str_chars(custom), opt_str_chars(host)));
            base
        },
    }
}

/// Relies on `uuid::Uuid::new_v4` and its hyphenated rendering: a fresh
/// random version-4 UUID shown as 36 characters of lowercase
/// hexadecimal digits and hyphens.
#[verifier::external_body]
pub(crate) fn new_run_id() -> (r: String)
    ensures
        r@.len() == 36,
        is_ascii_chars(r@),
{
    uuid::Uuid::new_v4().to_string()
}

} // verus!
