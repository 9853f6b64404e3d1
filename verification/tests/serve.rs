use smech_farm::config::{Config, FarmConfig, WireGuardConfig};
use smech_farm::records::{
    JobOutcome, JobReport, JobRow, JobSubmit, NewPackage, PackageRow, QueueRequest, WgRegisterReq,
    WorkerChange, WorkerHeartbeat,
};
use smech_farm::serve::{handle_request, HandleStage, Response};
use smech_farm::work::{Effect, Query, Reply, Step};

fn config(enabled: bool) -> Config {
    Config {
        farm: FarmConfig::default(),
        wireguard: WireGuardConfig {
            enabled,
            interface: "wg0".to_string(),
            server_endpoint: "203.0.113.7:51820".to_string(),
            listen_port: 51820,
            server_wg_ip: "10.99.0.1/24".to_string(),
            worker_ip_pool: "10.99.0.0/24".to_string(),
        },
    }
}

/// Handles a request with the replies given in turn: the answer, what was done, what was asked.
fn handle(
    cfg: &Config,
    method: &str,
    url: &str,
    replies: Vec<Reply>,
) -> (HandleStage, Vec<Effect>, Vec<Query>) {
    let mut done: Vec<Effect> = Vec::new();
    let mut asked: Vec<Query> = Vec::new();
    let mut stage = HandleStage::Start;
    let mut reply = Reply::Begin;
    let mut rest = replies.into_iter();
    loop {
        let (next, step): (HandleStage, Step) = handle_request(cfg, method, url, stage, reply);
        stage = next;
        done.extend(step.effects);
        match step.ask {
            None => return (stage, done, asked),
            Some(q) => asked.push(q),
        }
        reply = rest.next().unwrap();
    }
}

fn json(status: i32, body: &str) -> HandleStage {
    HandleStage::Done(Response {
        status,
        content_type: "application/json".to_string(),
        body: body.to_string(),
    })
}

#[test]
fn what_is_not_offered_is_not_found() {
    let (end, done, asked) = handle(&config(true), "GET", "/nothing", Vec::new());
    assert_eq!(end, json(404, "{\"error\":\"not found\"}"));
    assert!(done.is_empty() && asked.is_empty());
}

#[test]
fn the_dashboard_is_html() {
    let (end, _, _) = handle(&config(false), "GET", "/", Vec::new());
    match end {
        HandleStage::Done(r) => {
            assert_eq!(r.status, 200);
            assert_eq!(r.content_type, "text/html; charset=utf-8");
            assert!(r.body.starts_with("<!DOCTYPE html>"));
        }
        _ => panic!("no answer"),
    }
}

#[test]
fn lists_are_asked_for_and_shown() {
    let cfg = config(true);
    let (end, _, asked) = handle(&cfg, "GET", "/api/workers", vec![Reply::Workers(Vec::new())]);
    assert_eq!((end, asked), (json(200, "[]"), vec![Query::Workers]));
    let (end, _, asked) = handle(&cfg, "GET", "/api/queue", vec![Reply::Packages(Vec::new())]);
    assert_eq!((end, asked), (json(200, "[]"), vec![Query::Packages]));
    let (end, _, asked) = handle(&cfg, "GET", "/api/jobs", vec![Reply::Jobs(Vec::new())]);
    assert_eq!((end, asked), (json(200, "[]"), vec![Query::Jobs]));
    let (end, _, asked) = handle(&cfg, "GET", "/api/wg/peers", vec![Reply::Peers(Vec::new())]);
    assert_eq!((end, asked), (json(200, "[]"), vec![Query::Peers]));
}

#[test]
fn a_package_is_added_to_the_queue() {
    let req = || {
        Some(QueueRequest {
            package_name: "kio".to_string(),
            version: None,
            worker_id: "w1".to_string(),
        })
    };
    let replies = vec![Reply::QueueRequest(req()), Reply::Packages(Vec::new()), Reply::Time(3)];
    let (end, done, asked) = handle(&config(false), "POST", "/api/queue/add", replies);
    assert_eq!(end, json(200, "{\"ok\":true,\"msg\":\"queued\"}"));
    assert_eq!(asked, vec![Query::QueueRequest, Query::Packages, Query::Clock]);
    assert_eq!(
        done,
        vec![Effect::AddPackage(NewPackage {
            package_name: "kio".to_string(),
            version: String::new(),
            worker_id: "w1".to_string(),
            status: "pending".to_string(),
            requested_at: 3,
        })]
    );
    let there = PackageRow {
        id: 1,
        package_name: "kio".to_string(),
        version: String::new(),
        worker_id: "w1".to_string(),
        status: "pending".to_string(),
        requested_at: 3,
    };
    let replies = vec![Reply::QueueRequest(req()), Reply::Packages(vec![there]), Reply::Time(4)];
    let (end, done, _) = handle(&config(false), "POST", "/api/queue/add", replies);
    assert_eq!(end, json(200, "{\"ok\":true,\"msg\":\"already queued\"}"));
    assert!(done.is_empty());
}

#[test]
fn bodies_that_cannot_be_read_are_refused() {
    let cfg = config(true);
    let bad = json(400, "{\"error\":\"bad request\"}");
    let (end, _, _) = handle(&cfg, "POST", "/api/queue/add", vec![Reply::QueueRequest(None)]);
    assert_eq!(end, bad);
    let (end, _, _) = handle(&cfg, "POST", "/api/jobs/submit", vec![Reply::JobSubmit(None)]);
    assert_eq!(end, bad);
    let (end, _, _) = handle(&cfg, "POST", "/api/workers/heartbeat", vec![Reply::Heartbeat(None)]);
    assert_eq!(end, bad);
    let none = vec![Reply::RegisterRequest(None)];
    let (end, _, _) = handle(&cfg, "POST", "/api/wg/register-worker", none);
    assert_eq!(
        end,
        json(
            400,
            r#"{"error":"bad request — expected {\"name\":\"...\",\"public_key\":\"...\"}"}"#
        )
    );
}

#[test]
fn the_queue_is_processed_and_pushed() {
    let finished = || vec![Reply::Finished, Reply::Finished];
    let (end, _, asked) = handle(&config(false), "POST", "/api/queue/process", finished());
    assert_eq!(end, json(200, "{\"ok\":true,\"msg\":\"queue processed\"}"));
    assert_eq!(asked, vec![Query::ProcessQueue, Query::PushPackages]);
    let (end, _, asked) = handle(&config(false), "POST", "/api/packages/push", finished());
    assert_eq!(end, json(200, "{\"ok\":true,\"msg\":\"push signal written\"}"));
    assert_eq!(asked, vec![Query::PushPackages]);
}

#[test]
fn a_job_is_stored_and_handed_out() {
    let req = JobSubmit {
        filename: "x.tar".to_string(),
        content: "Zm9v".to_string(),
        submitted_by: "me".to_string(),
    };
    let replies = vec![Reply::JobSubmit(Some(req)), Reply::Time(5), Reply::Id(31)];
    let (end, done, asked) = handle(&config(false), "POST", "/api/jobs/submit", replies);
    assert_eq!(end, json(200, "{\"ok\":true,\"job_id\":31}"));
    assert!(matches!(&asked[2], Query::AddJob(j) if j.content == b"foo" && j.submitted_at == 5));
    assert!(done.contains(&Effect::WriteBytes(
        "/srv/smech-farm/packages/jobs/31-x.tar".to_string(),
        b"foo".to_vec()
    )));
}

#[test]
fn a_job_whose_bytes_end_too_early_aborts() {
    let req = JobSubmit {
        filename: "x".to_string(),
        content: "Z".to_string(),
        submitted_by: "me".to_string(),
    };
    let replies = vec![Reply::JobSubmit(Some(req))];
    let (end, done, _) = handle(&config(false), "POST", "/api/jobs/submit", replies);
    assert!(!matches!(end, HandleStage::Done(_)));
    assert!(matches!(&done[0], Effect::Abort(_)));
}

#[test]
fn a_sync_is_asked_for_by_name_or_by_the_api() {
    let replies = vec![Reply::Text(Some("me".to_string())), Reply::Finished];
    let (end, _, asked) = handle(&config(false), "POST", "/api/gateway/sync", replies);
    assert_eq!(end, json(200, "{\"ok\":true,\"msg\":\"gateway sync complete\"}"));
    assert_eq!(asked[1], Query::SyncGateway("me".to_string()));
    let replies = vec![Reply::Text(None), Reply::Finished];
    let (_, _, asked) = handle(&config(false), "POST", "/api/gateway/sync", replies);
    assert_eq!(asked[1], Query::SyncGateway("api".to_string()));
}

#[test]
fn a_heartbeat_is_stored() {
    let hb = WorkerHeartbeat {
        id: "w1".to_string(),
        hostname: "box".to_string(),
        ip_addr: "10.0.0.9".to_string(),
        cores: 8,
    };
    let replies = vec![Reply::Heartbeat(Some(hb)), Reply::Workers(Vec::new()), Reply::Time(6)];
    let (end, done, _) = handle(&config(false), "POST", "/api/workers/heartbeat", replies);
    assert_eq!(end, json(200, "{\"ok\":true}"));
    assert!(matches!(&done[0], Effect::SaveWorker(WorkerChange::Insert(w)) if w.last_seen == 6));
}

#[test]
fn a_worker_is_let_into_the_tunnel() {
    let req =
        WgRegisterReq { name: "w".to_string(), public_key: "KEY".to_string() };
    let replies = vec![
        Reply::RegisterRequest(Some(req)),
        Reply::Registered(Ok("10.99.0.2".to_string())),
        Reply::Text(Some("PUB\n".to_string())),
    ];
    let (end, _, asked) = handle(&config(true), "POST", "/api/wg/register-worker", replies);
    assert_eq!(asked[1], Query::Register("w".to_string(), "KEY".to_string()));
    assert_eq!(asked[2], Query::ReadText("/etc/smech-farm/wg0.pub".to_string()));
    assert!(matches!(end, HandleStage::Done(r) if r.status == 200
        && r.body.contains("\"assigned_ip\":\"10.99.0.2\"")
        && r.body.contains("\"server_public_key\":\"PUB\"")));
}

#[test]
fn the_tunnel_is_refused_while_it_is_off() {
    let cfg = config(false);
    let off = json(404, "{\"error\":\"WireGuard not enabled\"}");
    let (end, _, asked) = handle(&cfg, "GET", "/api/wg/server-info", Vec::new());
    assert_eq!(end, off);
    assert!(asked.is_empty());
    let (end, _, _) = handle(&cfg, "GET", "/api/wg/peers", Vec::new());
    assert_eq!(end, off);
    let req =
        WgRegisterReq { name: "w".to_string(), public_key: "KEY".to_string() };
    let why = "WireGuard is not enabled on this orchestrator".to_string();
    let replies = vec![Reply::RegisterRequest(Some(req)), Reply::Registered(Err(why))];
    let (end, _, _) = handle(&cfg, "POST", "/api/wg/register-worker", replies);
    assert_eq!(end, json(500, "{\"error\":\"WireGuard is not enabled on this orchestrator\"}"));
}

#[test]
fn the_server_tells_of_itself_from_its_key_file() {
    let replies = vec![Reply::Text(Some("PUB\n".to_string()))];
    let (end, _, asked) = handle(&config(true), "GET", "/api/wg/server-info", replies);
    assert_eq!(asked, vec![Query::ReadText("/etc/smech-farm/wg0.pub".to_string())]);
    assert!(matches!(end, HandleStage::Done(r) if r.body.contains("\"public_key\":\"PUB\"")));
}

#[test]
fn a_report_on_a_job_is_stored() {
    let cfg = config(false);
    let queued = || JobRow {
        id: 12,
        filename: "x.tar".to_string(),
        submitted_by: "me".to_string(),
        status: "queued".to_string(),
        submitted_at: 3,
        worker_id: None,
    };
    let report = |job: i64| JobReport {
        job_id: Some(job),
        status: "done".to_string(),
        worker_id: "w1".to_string(),
    };
    let told = |job: i64| {
        let replies = vec![
            Reply::JobReport(Some(report(job))),
            Reply::Jobs(vec![queued()]),
            Reply::Time(8),
        ];
        handle(&cfg, "POST", "/api/jobs/report", replies)
    };
    let (end, done, asked) = told(12);
    assert_eq!(end, json(200, "{\"ok\":true}"));
    let outcome = JobOutcome {
        id: 12,
        status: "done".to_string(),
        worker_id: "w1".to_string(),
        completed_at: 8,
    };
    assert_eq!(done, vec![Effect::FinishJob(outcome)]);
    assert_eq!(asked, vec![Query::JobReport, Query::Jobs, Query::Clock]);
    let (end, done, _) = told(13);
    assert_eq!(end, json(404, "{\"error\":\"unknown job\"}"));
    assert!(done.is_empty());
    let (end, done, _) = handle(&cfg, "POST", "/api/jobs/report", vec![Reply::JobReport(None)]);
    assert_eq!(end, json(400, "{\"error\":\"bad request\"}"));
    assert!(done.is_empty());
}
