use smech_farm::records::WgRegisterResp;
use smech_farm::wg_setup::{cmd_wg_setup, port_of, tunnel_conf, wg_host, JoinStage};
use smech_farm::api::network_of;
use smech_farm::work::{Cmd, Effect, Output, Query, Reply, Step};

const ADDR: &str = "203.0.113.7:7734";

fn go(name: &Option<String>, stage: JoinStage, reply: Reply) -> (JoinStage, Step) {
    cmd_wg_setup(ADDR, name, "smech-farm", stage, reply)
}

fn registered() -> WgRegisterResp {
    WgRegisterResp {
        assigned_ip: "10.99.0.5".to_string(),
        server_public_key: "PUB".to_string(),
        server_endpoint: "203.0.113.7:51820".to_string(),
        allowed_ips: "10.99.0.0/24".to_string(),
        keepalive: 25,
    }
}

fn stopped(end: (JoinStage, Step), why: &str) {
    assert_eq!(end.0, JoinStage::Done);
    assert_eq!(end.1.effects, vec![Effect::Report(why.to_string())]);
    assert_eq!(end.1.ask, None);
}

#[test]
fn the_server_has_the_first_address() {
    assert_eq!(wg_host("10.99.0.0/24"), "10.99.0.1");
    assert_eq!(wg_host("172.16.9.0/24"), "172.16.9.1");
    assert_eq!(wg_host("nonsense"), "10.99.0.1");
    assert_eq!(wg_host(&network_of("192.168.4.1")), "192.168.4.1");
}

#[test]
fn the_port_follows_the_last_colon() {
    assert_eq!(port_of("h:7734"), "7734");
    assert_eq!(port_of("h"), "h");
    assert_eq!(port_of("[::1]:80"), "80");
}

#[test]
fn the_configuration_of_a_tunnel() {
    assert_eq!(
        tunnel_conf(&registered(), "PRIV"),
        "[Interface]\nAddress = 10.99.0.5/32\nPrivateKey = PRIV\n\n[Peer]\nPublicKey = PUB\nEndpoint = 203.0.113.7:51820\nAllowedIPs = 10.99.0.0/24\nPersistentKeepalive = 25\n"
    );
}

#[test]
fn joining_runs_to_its_end() {
    let name = None;
    let (s, step) = go(&name, JoinStage::Start, Reply::Begin);
    assert_eq!(
        step.effects,
        vec![Effect::Print(
            "[*] SmechFarm WireGuard setup\n[*] Orchestrator: 203.0.113.7:7734\n".to_string()
        )]
    );
    assert_eq!(step.ask, Some(Query::Get(ADDR.to_string(), "/api/wg/server-info".to_string())));
    let (s, step) = go(&name, s, Reply::Http(Ok("{\"enabled\":true}".to_string())));
    assert_eq!(step.effects.len(), 2);
    let key = "/etc/smech-farm/worker-wg.key".to_string();
    let public = "/etc/smech-farm/worker-wg.pub".to_string();
    assert_eq!(step.ask, Some(Query::Exists(key.clone())));
    let (s, step) = go(&name, s, Reply::Found(false));
    assert_eq!(step.ask, Some(Query::Capture(Cmd::new("wg").arg("genkey"))));
    let out = Output { success: true, stdout: b"PRIV\n".to_vec() };
    let (s, step) = go(&name, s, Reply::Output(Some(out)));
    assert_eq!(step.effects, vec![Effect::WriteBytes(key.clone(), b"PRIV\n".to_vec())]);
    assert_eq!(step.ask, Some(Query::CaptureFrom(Cmd::new("wg").arg("pubkey"), key.clone())));
    let out = Output { success: true, stdout: b"WPUB\n".to_vec() };
    let (s, step) = go(&name, s, Reply::Output(Some(out)));
    assert_eq!(step.effects[0], Effect::WriteBytes(public.clone(), b"WPUB\n".to_vec()));
    assert_eq!(step.ask, Some(Query::ReadText(public)));
    let (s, step) = go(&name, s, Reply::Text(Some("WPUB\n".to_string())));
    assert_eq!(step.ask, Some(Query::ReadText(key)));
    let (s, step) = go(&name, s, Reply::Text(Some("PRIV\n".to_string())));
    assert_eq!(step.ask, Some(Query::ReadText("/etc/hostname".to_string())));
    let (s, step) = go(&name, s, Reply::Text(Some("gcp-1\n".to_string())));
    assert_eq!(step.effects, vec![Effect::Print("[*] Registering as 'gcp-1'...\n".to_string())]);
    assert_eq!(
        step.ask,
        Some(Query::Post(
            ADDR.to_string(),
            "/api/wg/register-worker".to_string(),
            "{\"name\":\"gcp-1\",\"public_key\":\"WPUB\"}".to_string()
        ))
    );
    let (s, step) = go(&name, s, Reply::Http(Ok("ANSWER".to_string())));
    assert_eq!(step.ask, Some(Query::Registration("ANSWER".to_string())));
    let (s, step) = go(&name, s, Reply::Registration(Some(registered())));
    let conf = "/etc/wireguard/smech-farm.conf".to_string();
    assert_eq!(
        step.effects,
        vec![Effect::Print("[+] Assigned WireGuard IP: 10.99.0.5\n".to_string())]
    );
    assert_eq!(step.ask, Some(Query::Write(conf.clone(), tunnel_conf(&registered(), "PRIV"))));
    let (s, step) = go(&name, s, Reply::Written(Ok(())));
    assert_eq!(step.effects, vec![Effect::Exec(Cmd::new("chmod").arg("600").arg(&conf))]);
    assert_eq!(step.ask, Some(Query::Run(Cmd::new("wg-quick").arg("up").arg(&conf))));
    let (end, step) = go(&name, s, Reply::Status(Some(true)));
    assert_eq!(end, JoinStage::Done);
    assert_eq!(
        step.effects,
        vec![
            Effect::Print("[+] WireGuard interface smech-farm is up\n".to_string()),
            Effect::Print(
                "\n[+] WireGuard setup complete!\n    Set SMECH_ORCHESTRATOR=10.99.0.1:7734 in your environment\n    or pass --orchestrator 10.99.0.1:7734 to worker commands\n\n    To start the worker daemon via WireGuard:\n    smech-farm-worker daemon --orchestrator 10.99.0.1:7734\n"
                    .to_string()
            ),
            Effect::WriteText(
                "/etc/smech-farm/wg-orchestrator".to_string(),
                "10.99.0.1:7734".to_string()
            ),
        ]
    );
}

#[test]
fn joining_stops_where_it_cannot_go_on() {
    let name = Some("w".to_string());
    stopped(
        go(&name, JoinStage::Info, Reply::Http(Err("down".to_string()))),
        "[-] Cannot reach orchestrator: down\n",
    );
    let off = "{\"error\":\"WireGuard not enabled\"}".to_string();
    stopped(
        go(&name, JoinStage::Info, Reply::Http(Ok(off))),
        "[-] WireGuard is not enabled on this orchestrator.\n    Set wireguard.enabled = true in smech-farm.toml on the orchestrator.\n",
    );
    let tools = "[-] wg binary not found. Install wireguard-tools first:\n    apt install wireguard-tools   (Debian/Ubuntu)\n    dnf install wireguard-tools   (Fedora/RHEL)\n";
    stopped(go(&name, JoinStage::Making, Reply::Output(None)), tools);
    let failed = Output { success: false, stdout: Vec::new() };
    stopped(go(&name, JoinStage::Making, Reply::Output(Some(failed))), tools);
    let waiting = || JoinStage::Registering { private: "PRIV".to_string() };
    stopped(
        go(&name, waiting(), Reply::Http(Err("down".to_string()))),
        "[-] Registration failed: down\n",
    );
    let (s, _) = go(&name, waiting(), Reply::Http(Ok("{\"error\":\"no\"}".to_string())));
    stopped(
        go(&name, s, Reply::Registration(None)),
        "[-] Unexpected response: {\"error\":\"no\"}\n",
    );
    let writing = JoinStage::Writing { reg: registered() };
    stopped(
        go(&name, writing, Reply::Written(Err("denied".to_string()))),
        "[-] Cannot write WireGuard config to /etc/wireguard/smech-farm.conf: denied\n    Try running as root.\n",
    );
}

#[test]
fn a_name_and_a_key_that_are_there_are_used() {
    let name = Some("w".to_string());
    let (s, step) = go(&name, JoinStage::Looking, Reply::Found(true));
    assert_eq!(step.ask, Some(Query::ReadText("/etc/smech-farm/worker-wg.pub".to_string())));
    let (s, _) = go(&name, s, Reply::Text(None));
    let (_, step) = go(&name, s, Reply::Text(None));
    assert!(matches!(step.ask, Some(Query::Post(_, _, body))
        if body == "{\"name\":\"w\",\"public_key\":\"\"}"));
}

#[test]
fn an_interface_that_does_not_come_up_is_reported() {
    let raising = JoinStage::Raising { reg: registered() };
    let (end, step) = go(&None, raising, Reply::Status(None));
    assert_eq!(end, JoinStage::Done);
    assert_eq!(
        step.effects[0],
        Effect::Report(
            "[!] wg-quick up failed — you may need to run this as root, or bring\n    up the interface manually: wg-quick up /etc/wireguard/smech-farm.conf\n"
                .to_string()
        )
    );
    assert_eq!(step.effects.len(), 3);
}

#[test]
fn the_private_key_is_not_sent() {
    let name = Some("w".to_string());
    let ask = |private: &str| {
        let stage = JoinStage::ReadPrivate { public: "WPUB".to_string() };
        go(&name, stage, Reply::Text(Some(private.to_string()))).1
    };
    assert_eq!(ask("one"), ask("another"));
}

#[test]
fn the_interface_that_is_named_is_the_one_that_comes_up() {
    let go = |stage, reply| cmd_wg_setup(ADDR, &None, "farm7", stage, reply);
    let conf = "/etc/wireguard/farm7.conf".to_string();
    let answered = JoinStage::Parsing { private: "PRIV".to_string(), answer: "ANSWER".to_string() };
    let (s, step) = go(answered, Reply::Registration(Some(registered())));
    assert_eq!(step.ask, Some(Query::Write(conf.clone(), tunnel_conf(&registered(), "PRIV"))));
    let (s, step) = go(s, Reply::Written(Ok(())));
    assert_eq!(step.effects, vec![Effect::Exec(Cmd::new("chmod").arg("600").arg(&conf))]);
    assert_eq!(step.ask, Some(Query::Run(Cmd::new("wg-quick").arg("up").arg(&conf))));
    let (_, step) = go(s, Reply::Status(Some(true)));
    assert_eq!(step.effects[0], Effect::Print("[+] WireGuard interface farm7 is up\n".to_string()));
    stopped(
        go(JoinStage::Writing { reg: registered() }, Reply::Written(Err("denied".to_string()))),
        "[-] Cannot write WireGuard config to /etc/wireguard/farm7.conf: denied\n    Try running as root.\n",
    );
    let (_, step) = go(JoinStage::Raising { reg: registered() }, Reply::Status(Some(false)));
    assert_eq!(
        step.effects[0],
        Effect::Report(
            "[!] wg-quick up failed — you may need to run this as root, or bring\n    up the interface manually: wg-quick up /etc/wireguard/farm7.conf\n"
                .to_string()
        )
    );
}
