//! The orchestration decisions of one invocation: resolve the endpoint
//! prefix, decide on start/complete correlation, and build the start
//! and completion requests around the run. The invocation is linear —
//! an optional start notification, the command run, the formatted
//! payload, the completion notification — and only the completion
//! notification's outcome is the invocation's own outcome; an unverified
//! driver performs the process launch and the network sends.
use crate::checkin::{
    complete_url_chars, opt_chars, start_url_chars, url_prefix, url_prefix_chars, CheckId, Method,
    new_run_id, start_request, complete_request, Request,
};
use crate::format::{FormatOptions, ReportPayload};
use vstd::prelude::*;

verus! {

/// One invocation's configuration, owned by the command-line layer and
/// read-only to the core.
pub struct Config {
    /// Base URL of the monitoring endpoint.
    pub base_url: String,
    /// How the monitored check is identified.
    pub id: CheckId,
    /// Send a start notification, paired with the completion by a
    /// correlation token.
    pub time: bool,
    /// Keep the first bytes of oversized output instead of the last.
    pub head: bool,
    /// Do not capture or report any command output.
    pub ping_only: bool,
    /// Report without affecting the check's pass/fail state.
    pub log: bool,
    /// Include the command line, exit code and duration in the report.
    pub detailed: bool,
    /// Dump the process environment ahead of the detailed report.
    pub env: bool,
    /// Write diagnostic traces to the error stream.
    pub verbose: bool,
    /// Custom prefix for the identifying client label.
    pub user_agent: Option<String>,
    /// The command to run, as its argument strings.
    pub command: Vec<String>,
}

impl Config {
    /// The URL prefix every notification of this invocation targets.
    pub fn url_prefix(&self) -> (r: String)
        ensures
            r@ == url_prefix_chars(self.base_url@, self.id),
    {
        url_prefix(self.base_url.as_str(), &self.id)
    }

    /// The formatting options this configuration selects.
    pub open spec fn spec_format_options(self) -> FormatOptions {
        FormatOptions { detailed: self.detailed, env: self.env, log_only: self.log, head: self.head }
    }

    /// Gathers the formatting options for the report payload.
    pub fn format_options(&self) -> (r: FormatOptions)
        ensures
            r == self.spec_format_options(),
    {
        FormatOptions { detailed: self.detailed, env: self.env, log_only: self.log, head: self.head }
    }
}

/// One invocation's resolved decisions: the endpoint prefix, and the
/// correlation token generated exactly when start/complete pairing was
/// requested. The token lives only for this invocation and ties its
/// start notification to its completion notification.
pub struct Invocation {
    pub config: Config,
    pub prefix: String,
    pub run_id: Option<String>,
}

impl Invocation {
    /// Well-formed: the prefix is the one the configuration resolves
    /// to, and a correlation token exists exactly when pairing is on.
    pub open spec fn wf(self) -> bool {
        &&& self.prefix@ == url_prefix_chars(self.config.base_url@, self.config.id)
        &&& (self.run_id is Some <==> self.config.time)
    }

    /// First step of a run: resolves the endpoint prefix and generates
    /// a fresh correlation token when start/complete pairing is on.
    pub fn prepare(config: Config) -> (inv: Invocation)
        ensures
            inv.wf(),
            inv.config == config,
    {
        let prefix = config.url_prefix();
        let run_id = if config.time {
            Option::Some(new_run_id())
        } else {
            Option::None
        };
        Invocation { config, prefix, run_id }
    }

    /// Whether the runner should buffer the command's output; in
    /// ping-only mode the output is discarded instead.
    pub fn capture_output(&self) -> (r: bool)
        ensures
            r == !self.config.ping_only,
    {
        !self.config.ping_only
    }

    /// The start notification to send before running the command: one
    /// exists exactly when pairing is on, carries the correlation token
    /// in its URL, and has no body. Its delivery is best-effort: a
    /// failure must not keep the command from running.
    pub fn start_request(&self) -> (r: Option<Request>)
        ensures
            r is Some <==> self.run_id is Some,
            r is Some ==> (r->Some_0).method == Method::Get,
            r is Some ==> (r->Some_0).url@ == start_url_chars(
                self.prefix@,
                (self.run_id->Some_0)@,
            ),
            r is Some ==> (r->Some_0).body is None,
    {
        match &self.run_id {
            Option::Some(rid) => Option::Some(start_request(self.prefix.as_str(), rid.as_str())),
            Option::None => Option::None,
        }
    }

    /// The completion notification that records the run's outcome:
    /// posted to the exit-code path of the payload (or the log path
    /// when the payload carries no code), under the same correlation
    /// token as the start notification, with the payload text as its
    /// body only when there is text to report. Its delivery outcome is
    /// the invocation's own outcome.
    pub fn complete_request(&self, payload: &ReportPayload) -> (r: Request)
        ensures
            r.method == Method::Post,
            r.url@ == complete_url_chars(
                self.prefix@,
                payload.exit_code,
                match self.run_id {
                    Option::Some(rid) => Option::Some(rid@),
                    Option::None => Option::None,
                },
            ),
            payload.text@.len() == 0 ==> r.body is None,
            payload.text@.len() > 0 ==> r.body is Some && (r.body->Some_0)@ == payload.text@,
    {
        let rid_ref = self.run_id.as_ref();
        let r = complete_request(
            self.prefix.as_str(),
            rid_ref,
            payload.exit_code,
            payload.text.as_str(),
        );
        assert(opt_chars(rid_ref) == match self.run_id {
            Option::Some(rid) => Option::Some(rid@),
            Option::None => Option::<Seq<char>>::None,
        });
        r
    }
}

/// True when `s` ends with `suffix`.
pub open spec fn ends_with(s: Seq<char>, suffix: Seq<char>) -> bool {
    s.len() >= suffix.len() && s.subrange(s.len() - suffix.len(), s.len() as int) == suffix
}

/// When start/complete pairing is on, the start request and the
/// completion request carry the same correlation token as the query
/// parameter at the end of their URLs.
pub proof fn lemma_run_correlation(
    inv: Invocation,
    start: Request,
    complete: Request,
    payload: ReportPayload,
)
    requires
        inv.wf(),
        inv.config.time,
        start.url@ == start_url_chars(inv.prefix@, (inv.run_id->Some_0)@),
        complete.url@ == complete_url_chars(
            inv.prefix@,
            payload.exit_code,
            Option::Some((inv.run_id->Some_0)@),
        ),
    ensures
        ends_with(start.url@, "?rid="@ + (inv.run_id->Some_0)@),
        ends_with(complete.url@, "?rid="@ + (inv.run_id->Some_0)@),
{
    let rid = (inv.run_id->Some_0)@;
    let q = "?rid="@ + rid;
    assert(start.url@ == inv.prefix@ + "/start?rid="@ + rid);
    assert("/start?rid="@ == "/start"@ + "?rid="@) by {
        reveal_strlit("/start?rid=");
        reveal_strlit("/start");
        reveal_strlit("?rid=");
        assert("/start?rid="@ =~= "/start"@ + "?rid="@);
    }
    assert(start.url@.subrange(start.url@.len() - q.len(), start.url@.len() as int) =~= q);
    assert(complete.url@.subrange(complete.url@.len() - q.len(), complete.url@.len() as int)
        =~= q);
}

} // verus!
