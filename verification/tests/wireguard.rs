use smech_farm::config::WireGuardConfig;
use smech_farm::records::PeerRow;
use smech_farm::wireguard::{setup_wireguard, wg_server_pubkey, SetupStage};
use smech_farm::work::{Cmd, Effect, Output, Query, Reply, Step};

fn tunnel(enabled: bool) -> WireGuardConfig {
    WireGuardConfig {
        enabled,
        interface: "wg0".to_string(),
        server_endpoint: "".to_string(),
        listen_port: 51820,
        server_wg_ip: "10.99.0.1/24".to_string(),
        worker_ip_pool: "10.99.0.0/24".to_string(),
    }
}

fn words(step: &Step) -> Vec<String> {
    let mut out: Vec<String> = Vec::new();
    for e in &step.effects {
        if let Effect::Exec(c) = e {
            out.push(c.words.join(" "));
        }
    }
    out
}

#[test]
fn nothing_is_set_up_while_the_tunnel_is_off() {
    let (end, step) = setup_wireguard(&tunnel(false), SetupStage::Start, Reply::Begin);
    assert_eq!(end, SetupStage::Done);
    assert_eq!(step, Step::stop());
}

#[test]
fn a_key_pair_is_made_where_there_is_none() {
    let wg = tunnel(true);
    let (s, step) = setup_wireguard(&wg, SetupStage::Start, Reply::Begin);
    assert_eq!(step.effects, vec![Effect::MakeDir("/etc/smech-farm".to_string())]);
    assert_eq!(step.ask, Some(Query::Exists("/etc/smech-farm/wg0.key".to_string())));
    let (s, step) = setup_wireguard(&wg, s, Reply::Found(false));
    assert_eq!(step.ask, Some(Query::Capture(Cmd::new("wg").arg("genkey"))));
    let key = Output { success: true, stdout: b"PRIV\n".to_vec() };
    let (s, step) = setup_wireguard(&wg, s, Reply::Output(Some(key)));
    let path = "/etc/smech-farm/wg0.key".to_string();
    assert_eq!(step.effects, vec![Effect::WriteBytes(path.clone(), b"PRIV\n".to_vec())]);
    assert_eq!(step.ask, Some(Query::CaptureFrom(Cmd::new("wg").arg("pubkey"), path)));
    let public = Output { success: false, stdout: b"PUB\n".to_vec() };
    let (s, step) = setup_wireguard(&wg, s, Reply::Output(Some(public)));
    assert_eq!(s, SetupStage::Readding);
    assert_eq!(
        step.effects[0],
        Effect::WriteBytes("/etc/smech-farm/wg0.pub".to_string(), b"PUB\n".to_vec())
    );
    assert_eq!(step.effects[1], Effect::Report("[wg] generated server key pair\n".to_string()));
    assert_eq!(step.ask, Some(Query::Peers));
}

#[test]
fn a_key_that_is_there_is_kept_and_peers_are_let_in_again() {
    let wg = tunnel(true);
    let (s, step) = setup_wireguard(&wg, SetupStage::Looking, Reply::Found(true));
    assert_eq!(
        words(&step),
        vec![
            "ip link add wg0 type wireguard",
            "wg set wg0 private-key /etc/smech-farm/wg0.key listen-port 51820",
            "ip addr add 10.99.0.1/24 dev wg0",
            "ip link set wg0 up",
        ]
    );
    let peer = |key: &str, ip: &str| PeerRow {
        id: 1,
        worker_name: key.to_string(),
        public_key: key.to_string(),
        assigned_ip: ip.to_string(),
        added_at: 0,
    };
    let list = vec![peer("A", "10.99.0.2"), peer("B", "10.99.0.3")];
    let (end, step) = setup_wireguard(&wg, s, Reply::Peers(list));
    assert_eq!(end, SetupStage::Done);
    assert_eq!(
        words(&step),
        vec![
            "wg set wg0 peer A allowed-ips 10.99.0.2/32",
            "wg set wg0 peer B allowed-ips 10.99.0.3/32",
        ]
    );
    assert_eq!(
        step.effects[2],
        Effect::Report("[wg] interface wg0 is up (10.99.0.1/24)\n".to_string())
    );
}

#[test]
fn a_machine_without_the_tools_is_warned() {
    let failed = Output { success: false, stdout: Vec::new() };
    for reply in [Reply::Output(None), Reply::Output(Some(failed))] {
        let (end, step) = setup_wireguard(&tunnel(true), SetupStage::Making, reply);
        assert_eq!(end, SetupStage::Done);
        assert_eq!(
            step.effects,
            vec![Effect::Report(
                "[wg] WARNING: wg binary not found — WireGuard will not be active\n".to_string()
            )]
        );
        assert_eq!(step.ask, None);
    }
}

#[test]
fn the_public_key_is_read_without_its_line_end() {
    assert_eq!(wg_server_pubkey(&Some("abc=\n".to_string())), "abc=");
    assert_eq!(wg_server_pubkey(&None), "");
}
