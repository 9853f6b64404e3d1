use smech_farm::config::WireGuardConfig;
use smech_farm::peers::{add_peer_cmd, register_peer, wg_next_ip, wg_register_worker, RegisterStage};
use smech_farm::records::{PeerChange, PeerRow};
use smech_farm::work::{Cmd, Query, Reply, Step};

fn peer(id: i64, name: &str, key: &str, ip: &str) -> PeerRow {
    PeerRow {
        id,
        worker_name: name.to_string(),
        public_key: key.to_string(),
        assigned_ip: ip.to_string(),
        added_at: id,
    }
}

fn tunnel(enabled: bool) -> WireGuardConfig {
    WireGuardConfig {
        enabled,
        interface: "wg0".to_string(),
        server_endpoint: "203.0.113.7:51820".to_string(),
        listen_port: 51820,
        server_wg_ip: "10.99.0.1/24".to_string(),
        worker_ip_pool: "10.99.0.0/24".to_string(),
    }
}

fn start(wg: &WireGuardConfig) -> (RegisterStage, Step) {
    wg_register_worker(wg, "w", "KEY", RegisterStage::Start, Reply::Begin)
}

#[test]
fn the_lowest_free_address_is_next() {
    assert_eq!(wg_next_ip("10.99.0.0/24", &Vec::new()), Some("10.99.0.2".to_string()));
    let peers = vec![peer(1, "a", "A", "10.99.0.2"), peer(2, "b", "B", "10.99.0.4")];
    assert_eq!(wg_next_ip("10.99.0.0/24", &peers), Some("10.99.0.3".to_string()));
    assert_eq!(wg_next_ip("192.168.7.9", &peers), Some("192.168.7.2".to_string()));
}

#[test]
fn parts_of_a_pool_that_are_no_numbers_are_passed_over() {
    assert_eq!(wg_next_ip("10.x.99.0.0/24", &Vec::new()), Some("10.99.0.2".to_string()));
    assert_eq!(wg_next_ip("10.99.0/24", &Vec::new()), None);
    assert_eq!(wg_next_ip("", &Vec::new()), None);
    assert_eq!(wg_next_ip("10.99.300.0/24", &Vec::new()), None);
}

#[test]
fn a_pool_has_two_hundred_and_fifty_three_addresses() {
    let mut peers: Vec<PeerRow> = Vec::new();
    for h in 2..=254i64 {
        let ip = wg_next_ip("10.99.0.0/24", &peers).unwrap();
        assert_eq!(ip, format!("10.99.0.{}", h));
        peers.push(peer(h, &format!("w{}", h), &format!("k{}", h), &ip));
    }
    assert_eq!(wg_next_ip("10.99.0.0/24", &peers), None);
}

#[test]
fn a_registration_inserts_renames_or_finds_the_name_taken() {
    let peers = vec![peer(1, "a", "A", "10.99.0.2"), peer(2, "b", "B", "10.99.0.3")];
    assert_eq!(
        register_peer(&peers, "c", "C", "10.99.0.4"),
        PeerChange::Insert {
            worker_name: "c".to_string(),
            public_key: "C".to_string(),
            assigned_ip: "10.99.0.4".to_string(),
        }
    );
    assert_eq!(
        register_peer(&peers, "z", "B", "10.99.0.4"),
        PeerChange::Rename { id: 2, worker_name: "z".to_string() }
    );
    assert_eq!(
        register_peer(&peers, "b", "B", "10.99.0.4"),
        PeerChange::Rename { id: 2, worker_name: "b".to_string() }
    );
    assert_eq!(register_peer(&peers, "a", "B", "10.99.0.4"), PeerChange::NameTaken);
    assert_eq!(register_peer(&peers, "a", "C", "10.99.0.4"), PeerChange::NameTaken);
}

#[test]
fn a_registration_runs_to_its_end() {
    let wg = tunnel(true);
    let (s, step) = start(&wg);
    assert_eq!(step.ask, Some(Query::Peers));
    let (s, step) = wg_register_worker(&wg, "w", "KEY", s, Reply::Peers(Vec::new()));
    let added = Cmd::new("wg")
        .arg("set")
        .arg("wg0")
        .arg("peer")
        .arg("KEY")
        .arg("allowed-ips")
        .arg("10.99.0.2/32");
    assert_eq!(step.ask, Some(Query::Run(added)));
    let (s, step) = wg_register_worker(&wg, "w", "KEY", s, Reply::Status(Some(true)));
    assert_eq!(step.ask, Some(Query::Clock));
    let (s, step) = wg_register_worker(&wg, "w", "KEY", s, Reply::Time(77));
    let change = PeerChange::Insert {
        worker_name: "w".to_string(),
        public_key: "KEY".to_string(),
        assigned_ip: "10.99.0.2".to_string(),
    };
    assert_eq!(step.ask, Some(Query::SavePeer(change, 77)));
    let (s, step) = wg_register_worker(&wg, "w", "KEY", s, Reply::Written(Ok(())));
    assert_eq!(s, RegisterStage::Done(Ok("10.99.0.2".to_string())));
    assert_eq!(step, Step::stop());
}

#[test]
fn a_registration_is_refused_while_the_tunnel_is_off() {
    let (s, step) = start(&tunnel(false));
    let why = "WireGuard is not enabled on this orchestrator".to_string();
    assert_eq!(s, RegisterStage::Done(Err(why)));
    assert_eq!(step, Step::stop());
}

#[test]
fn a_registration_fails_where_the_pool_is_exhausted() {
    let mut wg = tunnel(true);
    wg.worker_ip_pool = "nonsense".to_string();
    let (s, _) = start(&wg);
    let (s, _) = wg_register_worker(&wg, "w", "KEY", s, Reply::Peers(Vec::new()));
    assert_eq!(s, RegisterStage::Done(Err("IP pool exhausted".to_string())));
}

#[test]
fn a_registration_fails_where_the_peer_cannot_be_added() {
    let wg = tunnel(true);
    for status in [None, Some(false)] {
        let (s, _) = start(&wg);
        let (s, _) = wg_register_worker(&wg, "w", "KEY", s, Reply::Peers(Vec::new()));
        let (s, step) = wg_register_worker(&wg, "w", "KEY", s, Reply::Status(status));
        let why = "wg set peer failed — is wireguard-tools installed?".to_string();
        assert_eq!(s, RegisterStage::Done(Err(why)));
        assert_eq!(step.ask, None);
    }
}

#[test]
fn a_registration_fails_where_the_name_is_taken_or_cannot_be_stored() {
    let wg = tunnel(true);
    let (s, _) = start(&wg);
    let peers = vec![peer(1, "w", "OTHER", "10.99.0.2")];
    let (s, _) = wg_register_worker(&wg, "w", "KEY", s, Reply::Peers(peers));
    let (s, _) = wg_register_worker(&wg, "w", "KEY", s, Reply::Status(Some(true)));
    let why = "UNIQUE constraint failed: wg_peers.worker_name".to_string();
    assert_eq!(s, RegisterStage::Done(Err(why)));

    let (s, _) = start(&wg);
    let (s, _) = wg_register_worker(&wg, "w", "KEY", s, Reply::Peers(Vec::new()));
    let (s, _) = wg_register_worker(&wg, "w", "KEY", s, Reply::Status(Some(true)));
    let (s, _) = wg_register_worker(&wg, "w", "KEY", s, Reply::Time(1));
    let (s, _) = wg_register_worker(&wg, "w", "KEY", s, Reply::Written(Err("disk".to_string())));
    assert_eq!(s, RegisterStage::Done(Err("disk".to_string())));
}

#[test]
fn the_command_that_adds_a_peer() {
    let c = add_peer_cmd("wg1", "K", "10.0.0.9");
    assert_eq!(c.words, vec!["wg", "set", "wg1", "peer", "K", "allowed-ips", "10.0.0.9/32"]);
}
