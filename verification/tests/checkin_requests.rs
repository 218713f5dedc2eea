//! Shape of the check-in requests: the completion URL for each exit
//! code, the start URL, the correlation token, and the client label.
use task_mon::checkin::{make_user_agent, CheckId, Method};
use task_mon::format::ReportPayload;
use task_mon::invocation::{Config, Invocation};

const BASE: &str = "http://example.com";

fn plain_config(uuid: &str) -> Config {
    Config {
        base_url: BASE.to_string(),
        id: CheckId::Uuid(uuid.to_string()),
        time: false,
        head: false,
        ping_only: false,
        log: false,
        detailed: false,
        env: false,
        verbose: false,
        user_agent: None,
        command: vec!["true".to_string()],
    }
}

fn payload(text: &str, exit_code: Option<u8>) -> ReportPayload {
    ReportPayload { text: text.to_string(), exit_code }
}

#[test]
fn ping() {
    let agent = Invocation {
        config: plain_config("ping"),
        prefix: format!("{}/{}", BASE, "ping"),
        run_id: None,
    };
    let suc = agent.complete_request(&payload("foo bar", Some(0)));
    assert_eq!(suc.method, Method::Post);
    assert_eq!(suc.url, "http://example.com/ping/0");
    assert_eq!(suc.body.as_deref(), Some("foo bar"));

    let fail = agent.complete_request(&payload("bar baz", Some(10)));
    assert_eq!(fail.url, "http://example.com/ping/10");
    assert_eq!(fail.body.as_deref(), Some("bar baz"));

    let log = agent.complete_request(&payload("bang boom", None));
    assert_eq!(log.url, "http://example.com/ping/log");
    assert_eq!(log.body.as_deref(), Some("bang boom"));

    let rid = uuid::Uuid::from_u128(1234).to_string();
    let with_rid = Invocation {
        config: plain_config("ping"),
        prefix: format!("{}/{}", BASE, "ping"),
        run_id: Some(rid.clone()),
    };
    let runid = with_rid.complete_request(&payload("run id", Some(0)));
    assert_eq!(runid.url, format!("http://example.com/ping/0?rid={}", rid));
    assert_eq!(runid.body.as_deref(), Some("run id"));
}

#[test]
fn start() {
    let mut cfg = plain_config("start");
    cfg.time = true;
    cfg.command = vec!["".to_string()];
    let inv = Invocation::prepare(cfg);
    let req = inv.start_request().unwrap();
    assert_eq!(req.method, Method::Get);
    assert!(req.url.starts_with("http://example.com/start/start?rid="));
    assert!(req.body.is_none());
    let rid = &req.url[req.url.find("?rid=").unwrap() + 5..];
    assert_eq!(rid.len(), 36);
    assert!(rid.chars().all(|c| c.is_ascii_hexdigit() || c == '-'));
}

#[test]
fn no_start_without_pairing() {
    let inv = Invocation::prepare(plain_config("nostart"));
    assert!(inv.run_id.is_none());
    assert!(inv.start_request().is_none());
}

#[test]
fn agent() {
    match hostname::get().ok() {
        Some(host) => {
            let host = host.to_string_lossy();
            assert_eq!(
                make_user_agent(None, Some(&host)),
                format!("{} - {}", "task_mon", host)
            );
            assert_eq!(
                make_user_agent(Some("foo"), Some(&host)),
                format!("foo ({} - {})", "task_mon", host)
            );
        },
        None => {
            assert_eq!(make_user_agent(None, None), "task_mon");
            assert_eq!(make_user_agent(Some("foo"), None), format!("foo ({})", "task_mon"));
        },
    }
}

#[test]
fn empty_payload_sends_no_body() {
    let inv = Invocation::prepare(plain_config("empty"));
    let req = inv.complete_request(&payload("", Some(0)));
    assert_eq!(req.url, "http://example.com/empty/0");
    assert!(req.body.is_none());
}
