use smech_farm::work::{Cmd, Effect, MachineInfo, Query, Reply, Step};
use smech_farm::worker::{
    check_packages_ready, cmd_check_package, cmd_daemon, cmd_download_package, cmd_list_packages,
    cmd_status, cmd_wg_status, cpu_cores, hostname, local_ip, orchestrator_addr, worker_id,
    BeatStage, FetchStage, StatusStage, WgStatusStage,
};

fn text(s: &str) -> Option<String> {
    Some(s.to_string())
}

fn machine() -> MachineInfo {
    MachineInfo {
        hostname: text("box\n"),
        address: text("10.0.0.9"),
        cpuinfo: text("processor\t: 0\r\nmodel\r\nprocessor\t: 1\r\n"),
    }
}

#[test]
fn the_command_line_overrides_the_environment() {
    assert_eq!(orchestrator_addr(text("a:1"), text("b:2")), "a:1");
    assert_eq!(orchestrator_addr(None, text("b:2")), "b:2");
    assert_eq!(orchestrator_addr(None, None), "127.0.0.1:7734");
}

#[test]
fn a_machine_says_what_it_is() {
    assert_eq!(hostname(&text(" box\n")), "box");
    assert_eq!(hostname(&None), "unknown");
    assert_eq!(local_ip(&None), "0.0.0.0");
    assert_eq!(local_ip(&text("10.0.0.9")), "10.0.0.9");
    assert_eq!(cpu_cores(&machine().cpuinfo), 2);
    assert_eq!(cpu_cores(&text("a processor")), 0);
    assert_eq!(cpu_cores(&None), 0);
}

#[test]
fn a_worker_keeps_its_name() {
    let (id, step) = worker_id(&None, "box", 4242);
    assert_eq!(id, "worker-box-4242");
    let path = "/etc/smech-farm/worker-id".to_string();
    assert_eq!(
        step.effects,
        vec![
            Effect::MakeDir("/etc/smech-farm".to_string()),
            Effect::WriteText(path, id.clone()),
        ]
    );
    let (again, step) = worker_id(&Some(id.clone()), "other", 1);
    assert_eq!(again, id);
    assert_eq!(step, Step::stop());
    assert_eq!(worker_id(&text(" w7 \n"), "box", 1).0, "w7");
}

#[test]
fn the_daemon_sends_heartbeats() {
    let (s, step) = cmd_daemon("o:1", BeatStage::Start, Reply::Begin);
    let line = "[smech-farm-worker] starting heartbeat daemon → o:1\n".to_string();
    assert_eq!(step.effects, vec![Effect::Report(line)]);
    let (s, step) = cmd_daemon("o:1", s, Reply::Text(text("w1")));
    assert_eq!(step.ask, Some(Query::Machine));
    let (s, step) = cmd_daemon("o:1", s, Reply::Machine(machine()));
    let body = r#"{"cores":2,"hostname":"box","id":"w1","ip_addr":"10.0.0.9"}"#.to_string();
    let path = "/api/workers/heartbeat".to_string();
    assert_eq!(step.ask, Some(Query::Post("o:1".to_string(), path, body)));
    let (s, step) = cmd_daemon("o:1", s, Reply::Http(Err("down".to_string())));
    let line = "[smech-farm-worker] heartbeat failed: down\n".to_string();
    assert_eq!(step.effects, vec![Effect::Report(line)]);
    let flag = "/srv/smech-farm/packages/PACKAGES_READY".to_string();
    assert_eq!(step.ask, Some(Query::Exists(flag.clone())));
    let (s, step) = cmd_daemon("o:1", s, Reply::Found(true));
    assert_eq!(s, BeatStage::Measuring("w1".to_string()));
    assert_eq!(step.effects[1], Effect::Remove(flag));
    assert_eq!(step.effects[2], Effect::Sleep(15));
    assert_eq!(step.ask, Some(Query::Machine));
    assert_eq!(check_packages_ready(false), Step::stop());
}

#[test]
fn a_package_is_requested_and_waited_for() {
    let go = |s, r| cmd_download_package("o:1", "kio", &None, s, r);
    let (s, step) = go(FetchStage::Start, Reply::Begin);
    assert_eq!(step.ask, Some(Query::WorkerId));
    let (s, step) = go(s, Reply::Text(text("w1")));
    let line = "[*] Requesting package 'kio' from orchestrator queue...\n".to_string();
    assert_eq!(step.effects, vec![Effect::Print(line)]);
    let body = r#"{"package_name":"kio","version":null,"worker_id":"w1"}"#.to_string();
    let path = "/api/queue/add".to_string();
    assert_eq!(step.ask, Some(Query::Post("o:1".to_string(), path, body)));
    let (s, step) = go(s, Reply::Http(Ok(" {\"ok\":true} \n".to_string())));
    assert_eq!(step.effects, vec![Effect::Print("[+] {\"ok\":true}\n".to_string())]);
    let (s, step) = go(s, Reply::Found(false));
    assert_eq!(s, FetchStage::Waiting(1));
    assert_eq!(step.effects[0], Effect::Print("    waiting... (1/24)\n".to_string()));
    assert_eq!(step.effects[1], Effect::Sleep(5));
    let (s, step) = go(s, Reply::Found(true));
    assert_eq!(s, FetchStage::Done);
    let line = "[+] Package available at: /srv/smech-farm/packages/kio.tar.xz\n".to_string();
    assert_eq!(step.effects, vec![Effect::Print(line)]);
}

#[test]
fn waiting_for_a_package_ends() {
    let go = |s, r| cmd_download_package("o:1", "kio", &None, s, r);
    let (mut s, step) = go(FetchStage::Asking, Reply::Http(Err("down".to_string())));
    assert_eq!(step.effects, vec![Effect::Report("[-] Failed: down\n".to_string())]);
    let mut looks: u32 = 0;
    let mut last = Step::stop();
    while s != FetchStage::Done {
        let (next, step) = go(s, Reply::Found(false));
        s = next;
        last = step;
        looks += 1;
    }
    assert_eq!(looks, 24);
    assert_eq!(last.effects[0], Effect::Print("    waiting... (24/24)\n".to_string()));
    assert_eq!(last.effects[2], Effect::Report("[-] Timed out waiting for package.\n".to_string()));
    assert_eq!(last.ask, None);
}

#[test]
fn a_package_is_there_or_not() {
    assert_eq!(
        cmd_check_package("kio", true),
        "[+] kio — available at /srv/smech-farm/packages/kio.tar.xz\n"
    );
    assert_eq!(cmd_check_package("kio", false), "[-] kio — not found on NFS share\n");
}

#[test]
fn packages_are_listed_sorted() {
    let names = vec!["b.tar.xz".to_string(), "jobs".to_string(), "a.tar.xz".to_string()];
    assert_eq!(
        cmd_list_packages(&Some(names)),
        "  Packages on NFS share (2):\n    a.tar.xz\n    b.tar.xz\n"
    );
    assert_eq!(cmd_list_packages(&Some(Vec::new())), "  No packages on NFS share yet.\n");
    assert_eq!(cmd_list_packages(&None), "[-] NFS share not mounted at /srv/smech-farm/packages\n");
}

#[test]
fn the_status_of_a_worker() {
    let (s, _) = cmd_status("o:1", StatusStage::Start, Reply::Begin);
    let (s, step) = cmd_status("o:1", s, Reply::Text(text("w1")));
    assert_eq!(step.effects, vec![Effect::Print("  Worker ID    : w1\n".to_string())]);
    let (s, step) = cmd_status("o:1", s, Reply::Machine(machine()));
    assert_eq!(
        step.effects,
        vec![Effect::Print(
            "  Hostname     : box\n  IP           : 10.0.0.9\n  Cores        : 2\n  NFS share    : /srv/smech-farm/packages\n  Orchestrator : o:1\n"
                .to_string()
        )]
    );
    let (s, step) = cmd_status("o:1", s, Reply::Found(true));
    let path = "/etc/smech-farm/wg-orchestrator".to_string();
    assert_eq!(step.ask, Some(Query::ReadText(path)));
    let (s, step) = cmd_status("o:1", s, Reply::Text(text("10.99.0.1:7734\n")));
    let line = "  WireGuard    : active (10.99.0.1:7734)\n".to_string();
    assert_eq!(step.effects, vec![Effect::Print(line)]);
    let (end, step) = cmd_status("o:1", s, Reply::Http(Err("down".to_string())));
    assert_eq!(end, StatusStage::Done);
    let line = "  Farm status  : unreachable (down)\n".to_string();
    assert_eq!(step.effects, vec![Effect::Print(line)]);
    let (_, step) = cmd_status("o:1", StatusStage::Looking, Reply::Found(false));
    assert_eq!(step.ask, Some(Query::Get("o:1".to_string(), "/api/status".to_string())));
}

#[test]
fn the_status_of_the_tunnel() {
    let (s, step) = cmd_wg_status("smech-farm", WgStatusStage::Start, Reply::Begin);
    let line = "[*] WireGuard interface: smech-farm\n".to_string();
    assert_eq!(step.effects, vec![Effect::Print(line)]);
    let (s, step) = cmd_wg_status("smech-farm", s, Reply::Found(true));
    let line = "[+] Config: /etc/wireguard/smech-farm.conf\n".to_string();
    assert_eq!(step.effects, vec![Effect::Print(line)]);
    let (s, _) = cmd_wg_status("smech-farm", s, Reply::Found(true));
    let (s, step) = cmd_wg_status("smech-farm", s, Reply::Text(text("PUB\n")));
    assert_eq!(step.effects, vec![Effect::Print("[+] Worker public key: PUB\n".to_string())]);
    let (end, step) = cmd_wg_status("smech-farm", s, Reply::Text(text("10.99.0.1:7734\n")));
    assert_eq!(end, WgStatusStage::Done);
    let line = "[+] WireGuard orchestrator: 10.99.0.1:7734\n".to_string();
    let show = Cmd::new("wg").arg("show").arg("smech-farm");
    assert_eq!(step.effects, vec![Effect::Print(line), Effect::Exec(show)]);
    let (s, step) = cmd_wg_status("farm7", WgStatusStage::Start, Reply::Begin);
    assert_eq!(step.ask, Some(Query::Exists("/etc/wireguard/farm7.conf".to_string())));
    let (_, step) = cmd_wg_status("farm7", s, Reply::Found(true));
    let line = "[+] Config: /etc/wireguard/farm7.conf\n".to_string();
    assert_eq!(step.effects, vec![Effect::Print(line)]);
    let (_, step) = cmd_wg_status("x", WgStatusStage::Address, Reply::Text(None));
    assert_eq!(step.effects, vec![Effect::Exec(Cmd::new("wg").arg("show").arg("x"))]);
}
