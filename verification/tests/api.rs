use smech_farm::api::{
    api_status, api_wg_peers, api_wg_register_worker, api_wg_server_info, content_type, network_of,
    route, Route,
};
use smech_farm::config::WireGuardConfig;
use smech_farm::records::{Farm, JobRow, PackageRow, PeerRow, WorkerRow};

fn tunnel(enabled: bool) -> WireGuardConfig {
    WireGuardConfig {
        enabled,
        interface: "wg0".to_string(),
        server_endpoint: "203.0.113.7:51820".to_string(),
        listen_port: 51820,
        server_wg_ip: "10.99.0.1/24".to_string(),
        worker_ip_pool: "10.99.0.0/24".to_string(),
    }
}

fn peer(name: &str, ip: &str, at: i64) -> PeerRow {
    PeerRow {
        id: at,
        worker_name: name.to_string(),
        public_key: format!("{}-key", name),
        assigned_ip: ip.to_string(),
        added_at: at,
    }
}

fn farm() -> Farm {
    let worker = |id: &str, status: &str| WorkerRow {
        id: id.to_string(),
        hostname: id.to_string(),
        ip_addr: "".to_string(),
        cores: 1,
        last_seen: 0,
        status: status.to_string(),
    };
    let package = |id: i64, status: &str| PackageRow {
        id,
        package_name: "p".to_string(),
        version: "".to_string(),
        worker_id: "w".to_string(),
        status: status.to_string(),
        requested_at: 0,
    };
    let job = |id: i64, status: &str| JobRow {
        id,
        filename: "f".to_string(),
        submitted_by: "me".to_string(),
        status: status.to_string(),
        submitted_at: 0,
        worker_id: None,
    };
    Farm {
        workers: vec![worker("a", "online"), worker("b", "offline"), worker("c", "online")],
        packages: vec![package(1, "pending"), package(2, "failed")],
        jobs: vec![job(1, "queued"), job(2, "done"), job(3, "done"), job(4, "done")],
        peers: vec![peer("x", "10.99.0.2", 1)],
    }
}

#[test]
fn the_farm_in_numbers() {
    assert_eq!(
        api_status(&tunnel(true), &farm()),
        (
            200,
            "{\"version\":\"2.0.0\",\"online_workers\":2,\"pending_packages\":1,\"queued_jobs\":1,\"completed_jobs\":3,\"wg_peers\":1}"
                .to_string()
        )
    );
    let (_, body) = api_status(&tunnel(false), &farm());
    assert!(body.ends_with("\"wg_peers\":-1}"));
}

#[test]
fn the_server_tells_workers_of_itself() {
    assert_eq!(
        api_wg_server_info(&tunnel(true), &Some(" PUB=\n".to_string())),
        (
            200,
            "{\"enabled\":true,\"public_key\":\"PUB=\",\"endpoint\":\"203.0.113.7:51820\",\"server_ip\":\"10.99.0.1/24\",\"listen_port\":51820}"
                .to_string()
        )
    );
    let (_, body) = api_wg_server_info(&tunnel(true), &None);
    assert!(body.contains("\"public_key\":\"\""));
    assert_eq!(
        api_wg_server_info(&tunnel(false), &None),
        (404, "{\"error\":\"WireGuard not enabled\"}".to_string())
    );
}

#[test]
fn peers_are_shown_oldest_first() {
    let rows = vec![peer("b", "10.99.0.3", 9), peer("a", "10.99.0.2", 4)];
    assert_eq!(
        api_wg_peers(&tunnel(true), &rows),
        (
            200,
            "[{\"name\":\"a\",\"ip\":\"10.99.0.2\",\"public_key\":\"a-key\",\"added_at\":4},\
             {\"name\":\"b\",\"ip\":\"10.99.0.3\",\"public_key\":\"b-key\",\"added_at\":9}]"
                .to_string()
        )
    );
    assert_eq!(api_wg_peers(&tunnel(false), &rows).0, 404);
}

#[test]
fn a_registration_is_answered() {
    let wg = tunnel(true);
    assert_eq!(
        api_wg_register_worker(&wg, &Ok("10.99.0.7".to_string()), &Some("PUB\n".to_string())),
        (
            200,
            "{\"ok\":true,\"assigned_ip\":\"10.99.0.7\",\"server_public_key\":\"PUB\",\"server_endpoint\":\"203.0.113.7:51820\",\"server_wg_ip\":\"10.99.0.1\",\"allowed_ips\":\"10.99.0.0/24\",\"keepalive\":25}"
                .to_string()
        )
    );
    assert_eq!(
        api_wg_register_worker(&wg, &Err("IP pool exhausted".to_string()), &None),
        (500, "{\"error\":\"IP pool exhausted\"}".to_string())
    );
}

#[test]
fn the_network_of_an_address() {
    assert_eq!(network_of("172.16.5.1"), "172.16.5.0/24");
    assert_eq!(network_of("localhost"), "10.99.0.0/24");
    assert_eq!(network_of("a.b.c.d.e"), "10.99.0.0/24");
}

#[test]
fn every_documented_endpoint_has_its_route() {
    assert_eq!(route("GET", "/api/status"), Route::Status);
    assert_eq!(route("GET", "/api/workers"), Route::Workers);
    assert_eq!(route("GET", "/api/queue"), Route::Queue);
    assert_eq!(route("GET", "/api/jobs"), Route::Jobs);
    assert_eq!(route("POST", "/api/queue/add"), Route::QueueAdd);
    assert_eq!(route("POST", "/api/queue/process"), Route::QueueProcess);
    assert_eq!(route("POST", "/api/jobs/submit"), Route::JobSubmit);
    assert_eq!(route("POST", "/api/jobs/report"), Route::JobReport);
    assert_eq!(route("GET", "/api/jobs/report"), Route::NotFound);
    assert_eq!(route("POST", "/api/packages/push"), Route::PackagesPush);
    assert_eq!(route("POST", "/api/gateway/sync"), Route::GatewaySync);
    assert_eq!(route("POST", "/api/workers/heartbeat"), Route::Heartbeat);
    assert_eq!(route("GET", "/api/wg/server-info"), Route::ServerInfo);
    assert_eq!(route("GET", "/api/wg/peers"), Route::Peers);
    assert_eq!(route("POST", "/api/wg/register-worker"), Route::Register);
    assert_eq!(route("GET", "/ui"), Route::Ui);
    assert_eq!(route("GET", "/"), Route::Ui);
}

#[test]
fn other_requests_have_none() {
    assert_eq!(route("POST", "/api/status"), Route::NotFound);
    assert_eq!(route("GET", "/api/queue/add"), Route::NotFound);
    assert_eq!(route("GET", "/ui/"), Route::NotFound);
    assert_eq!(route("GET", "/api/status?x=1"), Route::NotFound);
    assert_eq!(route("get", "/api/status"), Route::NotFound);
    assert_eq!(route("DELETE", "/"), Route::NotFound);
}

#[test]
fn pages_are_html_and_the_rest_is_json() {
    assert_eq!(content_type("/"), "text/html; charset=utf-8");
    assert_eq!(content_type("/ui"), "text/html; charset=utf-8");
    assert_eq!(content_type("/uix"), "text/html; charset=utf-8");
    assert_eq!(content_type("/api/status"), "application/json");
    assert_eq!(content_type(""), "application/json");
}
