use smech_farm::commands::{
    api_get, api_post, cmd_wg_add_worker, cmd_wg_list_peers, cmd_wg_status, first_bytes, run_command,
    CommandStage,
};
use smech_farm::config::{Config, FarmConfig, WireGuardConfig};
use smech_farm::records::PeerRow;
use smech_farm::shell::ShellCommand;
use smech_farm::work::{Effect, Printed, Query, Reply, Step};

fn config(enabled: bool) -> Config {
    Config {
        farm: FarmConfig::default(),
        wireguard: WireGuardConfig {
            enabled,
            interface: "wg0".to_string(),
            server_endpoint: "203.0.113.7:51820".to_string(),
            listen_port: 51820,
            server_wg_ip: "10.99.0.1/24".to_string(),
            worker_ip_pool: "10.99.0.0/24".to_string(),
        },
    }
}

fn peer(name: &str, key: &str, at: i64) -> PeerRow {
    PeerRow {
        id: at,
        worker_name: name.to_string(),
        public_key: key.to_string(),
        assigned_ip: "10.99.0.2".to_string(),
        added_at: at,
    }
}

fn text(s: &str) -> Reply {
    Reply::Text(Some(s.to_string()))
}

fn printed(s: &str) -> Reply {
    Reply::Printed(Some(Printed { success: true, text: Some(s.to_string()) }))
}

fn failed() -> Reply {
    Reply::Printed(Some(Printed { success: false, text: Some(String::new()) }))
}

fn go(c: &ShellCommand, stage: CommandStage, reply: Reply) -> (CommandStage, Step) {
    run_command(&config(true), c, stage, reply)
}

fn says(end: (CommandStage, Step), t: &str) {
    assert_eq!(end.0, CommandStage::Done);
    assert_eq!(end.1.effects, vec![Effect::Print(t.to_string())]);
    assert_eq!(end.1.ask, None);
}

#[test]
fn the_api_is_reached_with_curl() {
    assert_eq!(api_get("/api/jobs").words, vec!["curl", "-sf", "http://127.0.0.1:7734/api/jobs"]);
    assert_eq!(
        api_post("/p", "{}").words,
        vec![
            "curl", "-sf", "-X", "POST", "-H", "Content-Type: application/json", "-d", "{}",
            "http://127.0.0.1:7734/p"
        ]
    );
}

#[test]
fn what_the_api_tells_is_shown() {
    let commands = [
        (ShellCommand::Status, "/api/status"),
        (ShellCommand::Workers, "/api/workers"),
        (ShellCommand::Queue, "/api/queue"),
        (ShellCommand::Jobs, "/api/jobs"),
    ];
    for (c, path) in commands {
        let (s, step) = go(&c, CommandStage::Start, Reply::Begin);
        assert_eq!(step.ask, Some(Query::CaptureText(api_get(path))));
        says(go(&c, s, printed("{\"a\":1}")), "{\n  \"a\": 1\n}\n");
    }
    says(
        go(&ShellCommand::Status, CommandStage::Showing, Reply::Printed(None)),
        "  [!] Could not reach API\n",
    );
    says(go(&ShellCommand::Status, CommandStage::Showing, failed()), "\n");
    let odd = Reply::Printed(Some(Printed { success: true, text: None }));
    says(go(&ShellCommand::Status, CommandStage::Showing, odd), "  [!] Could not reach API\n");
    let (_, step) = go(&ShellCommand::Status, CommandStage::Showing, printed("]"));
    assert!(matches!(&step.effects[0], Effect::Abort(_)));
}

#[test]
fn a_file_is_pushed() {
    let c = ShellCommand::PushCompile("/tmp/x.tar".to_string());
    let (s, step) = go(&c, CommandStage::Start, Reply::Begin);
    assert_eq!(step.ask, Some(Query::Exists("/tmp/x.tar".to_string())));
    let (s, step) = go(&c, s, Reply::Found(true));
    assert_eq!(step.ask, Some(Query::ReadBytes("/tmp/x.tar".to_string())));
    let (s, step) = go(&c, s, Reply::Bytes(Ok(b"foo".to_vec())));
    let body = "{\"filename\":\"x.tar\",\"content\":\"Zm9v\",\"submitted_by\":\"shell\"}";
    assert_eq!(step.ask, Some(Query::CaptureText(api_post("/api/jobs/submit", body))));
    says(go(&c, s, printed("{\"ok\":true}\n")), "  [+] Job submitted: {\"ok\":true}\n");
    says(go(&c, CommandStage::Submitting, Reply::Printed(None)), "  [!] Could not submit job\n");
    says(go(&c, CommandStage::Submitting, failed()), "  [+] Job submitted: \n");
    says(go(&c, CommandStage::Looking, Reply::Found(false)), "  [!] File not found: /tmp/x.tar\n");
    says(
        go(&c, CommandStage::Reading, Reply::Bytes(Err("denied".to_string()))),
        "  [!] Cannot read file: denied\n",
    );
}

#[test]
fn what_the_api_cannot_be_told_is_done_directly() {
    let (s, step) = go(&ShellCommand::SyncGateway, CommandStage::Start, Reply::Begin);
    assert_eq!(step.effects, vec![Effect::Print("  [*] Syncing network gateway...\n".to_string())]);
    let told = api_post("/api/gateway/sync", "{\"triggered_by\":\"shell\"}");
    assert_eq!(step.ask, Some(Query::CaptureText(told)));
    let (s, step) = go(&ShellCommand::SyncGateway, s, Reply::Printed(None));
    assert_eq!(step.ask, Some(Query::SyncGateway("shell".to_string())));
    assert_eq!(
        go(&ShellCommand::SyncGateway, s, Reply::Finished),
        (CommandStage::Done, Step::stop())
    );

    let c = ShellCommand::DownloadQueued;
    let (s, step) = go(&c, CommandStage::Start, Reply::Begin);
    assert_eq!(step.ask, Some(Query::CaptureText(api_post("/api/queue/process", "{}"))));
    let (s, step) = go(&c, s, Reply::Printed(None));
    assert_eq!(step.ask, Some(Query::ProcessQueue));
    says(go(&c, s, Reply::Finished), "  [+] Queue processed (direct)\n");

    let c = ShellCommand::PushPackages;
    let (s, step) = go(&c, CommandStage::Start, Reply::Begin);
    assert_eq!(step.ask, Some(Query::CaptureText(api_post("/api/packages/push", "{}"))));
    says(go(&c, CommandStage::Telling, printed(" ok ")), "  [+] ok\n");
    let (s, step) = go(&c, s, Reply::Printed(None));
    assert_eq!(step.ask, Some(Query::PushPackages));
    says(go(&c, s, Reply::Finished), "  [+] Push signal written (direct)\n");
}

#[test]
fn what_is_forced_is_done_though_the_api_fails() {
    let done = [
        (ShellCommand::DownloadQueued, Query::ProcessQueue),
        (ShellCommand::PushPackages, Query::PushPackages),
    ];
    for (c, query) in done {
        let (s, _) = go(&c, CommandStage::Start, Reply::Begin);
        let (_, step) = go(&c, s, failed());
        assert_eq!(step.ask, Some(query));
    }
}

#[test]
fn what_is_not_forced_takes_what_was_printed_for_the_answer() {
    let (s, _) = go(&ShellCommand::SyncGateway, CommandStage::Start, Reply::Begin);
    says(go(&ShellCommand::SyncGateway, s, failed()), "  [+] \n");
}

#[test]
fn the_host_shell_is_logged_first() {
    let c = ShellCommand::HostShell;
    let (s, step) = go(&c, CommandStage::Start, Reply::Begin);
    let line = "  [!] Entering host OS shell. This session is logged.\n".to_string();
    assert_eq!(step.effects, vec![Effect::Print(line)]);
    let (s, step) = go(&c, s, Reply::Time(8));
    assert_eq!(step.effects, vec![Effect::LogAccess(
            "orchestrator-shell".to_string(),
            8,
            "orchestrator-shell-access".to_string()
        )]);
    assert_eq!(step.ask, Some(Query::Env("HOST_SHELL".to_string())));
    let (_, step) = go(&c, s, Reply::Text(None));
    match &step.effects[0] {
        Effect::ExecOr(enter, plain) => {
            assert_eq!(
                enter.words,
                vec![
                    "nsenter", "--target", "1", "--mount", "--uts", "--ipc", "--net", "--pid", "--",
                    "/bin/bash"
                ]
            );
            assert_eq!(plain.words, vec!["/bin/bash"]);
        }
        _ => panic!("no shell"),
    }
}

#[test]
fn the_tunnel_commands_need_the_tunnel() {
    let off = config(false);
    says(
        run_command(&off, &ShellCommand::WgStatus, CommandStage::Start, Reply::Begin),
        "  [!] WireGuard is not enabled. Set wireguard.enabled = true in smech-farm.toml\n",
    );
    says(
        run_command(&off, &ShellCommand::WgListPeers, CommandStage::Start, Reply::Begin),
        "  [!] WireGuard is not enabled.\n",
    );
}

#[test]
fn the_tunnel_is_described() {
    let (s, step) = go(&ShellCommand::WgStatus, CommandStage::Start, Reply::Begin);
    assert_eq!(step.ask, Some(Query::ReadText("/etc/smech-farm/wg0.pub".to_string())));
    let (_, step) = go(&ShellCommand::WgStatus, s, text("PUB\n"));
    let said = "  WireGuard interface : wg0\n  Server WireGuard IP : 10.99.0.1/24\n  Listen port         : 51820\n  Server endpoint     : 203.0.113.7:51820\n  Server public key   : PUB\n\n";
    assert_eq!(step.effects[0], Effect::Print(said.to_string()));
    assert!(matches!(&step.effects[1], Effect::Exec(c) if c.words == ["wg", "show", "wg0"]));
    assert_eq!(cmd_wg_status(&config(true).wireguard, &Some("PUB".to_string())), said);
}

#[test]
fn peers_are_listed_with_the_start_of_their_keys() {
    let long = "A".repeat(44);
    let step = cmd_wg_list_peers(&vec![peer("b", &long, 9), peer("a", "short", 1)]);
    assert_eq!(
        step.effects,
        vec![
            Effect::Print(format!(
                "  {:20} {:16} {}\n  {}\n", "Name", "IP", "Public Key", "-".repeat(80)
            )),
            Effect::Print(format!("  {:20} {:16} {}\n", "a", "10.99.0.2", "short")),
            Effect::Print(format!("  {:20} {:16} {}\n", "b", "10.99.0.2", "A".repeat(32))),
        ]
    );
    let none = cmd_wg_list_peers(&Vec::new());
    assert_eq!(none.effects, vec![Effect::Print("  No WireGuard peers registered.\n".to_string())]);
}

#[test]
fn a_key_is_not_cut_inside_a_character() {
    assert_eq!(first_bytes("abc", 2), Some("ab".to_string()));
    assert_eq!(first_bytes("abc", 9), Some("abc".to_string()));
    assert_eq!(first_bytes("aé", 2), None);
    assert_eq!(first_bytes("éa", 2), Some("é".to_string()));
    assert_eq!(first_bytes("\u{20ac}\u{1f600}x", 7), Some("\u{20ac}\u{1f600}".to_string()));
    assert_eq!(first_bytes("x", 0), Some(String::new()));
    let odd = format!("{}é", "a".repeat(31));
    let step = cmd_wg_list_peers(&vec![peer("a", "ok", 1), peer("b", &odd, 2), peer("c", "ok", 3)]);
    assert_eq!(step.effects.len(), 3);
    assert!(matches!(&step.effects[2], Effect::Abort(_)));
}

#[test]
fn a_worker_is_added_by_hand() {
    let c = ShellCommand::WgAddWorker("w".to_string(), "KEY".to_string());
    let (s, step) = go(&c, CommandStage::Start, Reply::Begin);
    assert_eq!(step.ask, Some(Query::Register("w".to_string(), "KEY".to_string())));
    let (s, _) = go(&c, s, Reply::Registered(Ok("10.99.0.9".to_string())));
    let rule = format!("  {}\n", "─".repeat(41));
    let said = format!(
        "  [+] Worker 'w' registered\n  Assigned WireGuard IP : 10.99.0.9\n  Server public key     : PUB\n  Server endpoint       : 203.0.113.7:51820\n  Server WireGuard IP   : 10.99.0.1\n\n  Worker WireGuard config:\n{}  [Interface]\n  Address    = 10.99.0.9/32\n  PrivateKey = <worker private key here>\n  DNS        = 10.99.0.1\n\n  [Peer]\n  PublicKey  = PUB\n  Endpoint   = 203.0.113.7:51820\n  AllowedIPs = 10.99.0.0/24\n  PersistentKeepalive = 25\n{}",
        rule, rule
    );
    says(go(&c, s, text("PUB\n")), &said);
    let file = Some("PUB".to_string());
    assert_eq!(cmd_wg_add_worker(&config(true).wireguard, "w", "10.99.0.9", &file), said);
    says(
        go(&c, CommandStage::Registering, Reply::Registered(Err("IP pool exhausted".to_string()))),
        "  [!] Failed to register worker: IP pool exhausted\n",
    );
}
