use smech_farm::client::{client_round, cmd_shell, user_name, ClientCommand, ClientStage};
use smech_farm::work::{Cmd, Effect, Query, Reply, Step};

const ADDR: &str = "farm:7734";

fn go(c: &ClientCommand, stage: ClientStage, reply: Reply) -> (ClientStage, Step) {
    client_round(ADDR, c, stage, reply)
}

fn post(path: &str, body: &str) -> Option<Query> {
    Some(Query::Post(ADDR.to_string(), path.to_string(), body.to_string()))
}

fn get(path: &str) -> Option<Query> {
    Some(Query::Get(ADDR.to_string(), path.to_string()))
}

#[test]
fn a_file_is_submitted_under_its_label() {
    let c = ClientCommand::Push("src/x.tar".to_string(), Some("nightly".to_string()));
    let (s, step) = go(&c, ClientStage::Start, Reply::Begin);
    assert_eq!(step.ask, Some(Query::Exists("src/x.tar".to_string())));
    let (s, step) = go(&c, s, Reply::Found(true));
    assert_eq!(step.ask, Some(Query::ReadBytes("src/x.tar".to_string())));
    let (s, step) = go(&c, s, Reply::Bytes(Ok(b"foobar".to_vec())));
    let line = "[*] Submitting compile job: x.tar (6 bytes)\n".to_string();
    assert_eq!(step.effects, vec![Effect::Print(line)]);
    let body = "{\"filename\":\"x.tar\",\"content\":\"Zm9vYmFy\",\"submitted_by\":\"nightly\"}";
    assert_eq!(step.ask, post("/api/jobs/submit", body));
    let (end, step) = go(&c, s, Reply::Http(Ok("{\"ok\":true}\n".to_string())));
    assert_eq!(end, ClientStage::Done);
    assert_eq!(step.effects, vec![Effect::Print("[+] {\"ok\":true}\n".to_string())]);
}

#[test]
fn a_file_is_submitted_under_the_users_name() {
    let c = ClientCommand::Push("x".to_string(), None);
    let (s, step) = go(&c, ClientStage::Reading, Reply::Bytes(Ok(Vec::new())));
    assert_eq!(step.ask, Some(Query::Env("USER".to_string())));
    let (s, step) = go(&c, s, Reply::Text(Some("ada".to_string())));
    let body = "{\"filename\":\"x\",\"content\":\"\",\"submitted_by\":\"ada\"}";
    assert_eq!(step.ask, post("/api/jobs/submit", body));
    let (_, step) = go(&c, s, Reply::Http(Err("down".to_string())));
    assert_eq!(step.effects, vec![Effect::Report("[-] Failed to submit job: down\n".to_string())]);
    assert_eq!(user_name(None), "client");
}

#[test]
fn a_file_that_cannot_be_had_ends_the_client() {
    let c = ClientCommand::Push("x".to_string(), None);
    let (end, step) = go(&c, ClientStage::Looking, Reply::Found(false));
    assert_eq!(end, ClientStage::Done);
    let line = "[-] File not found: x\n".to_string();
    assert_eq!(step.effects, vec![Effect::Report(line), Effect::Exit(1)]);
    let (_, step) = go(&c, ClientStage::Reading, Reply::Bytes(Err("denied".to_string())));
    let line = "[-] Cannot read x: denied\n".to_string();
    assert_eq!(step.effects, vec![Effect::Report(line), Effect::Exit(1)]);
}

#[test]
fn a_sync_is_triggered() {
    let (s, _) = go(&ClientCommand::Sync, ClientStage::Start, Reply::Begin);
    let (s, step) = go(&ClientCommand::Sync, s, Reply::Text(None));
    let line = "[*] Triggering gateway sync on orchestrator...\n".to_string();
    assert_eq!(step.effects, vec![Effect::Print(line)]);
    assert_eq!(step.ask, post("/api/gateway/sync", "{\"triggered_by\":\"client\"}"));
    let (_, step) = go(&ClientCommand::Sync, s, Reply::Http(Err("down".to_string())));
    assert_eq!(step.effects, vec![Effect::Report("[-] Failed: down\n".to_string())]);
}

#[test]
fn the_status_is_shown_with_the_workers() {
    let c = ClientCommand::Status;
    let (s, step) = go(&c, ClientStage::Start, Reply::Begin);
    assert_eq!(
        step.effects,
        vec![Effect::Print("\n  SmechFarm Status — farm:7734\n\n".to_string())]
    );
    assert_eq!(step.ask, get("/api/status"));
    let (s, step) = go(&c, s, Reply::Http(Ok("{\"version\":\"2.0.0\"}".to_string())));
    assert_eq!(
        step.effects,
        vec![Effect::Print("  version:                 2.0.0\n\n  Workers:\n".to_string())]
    );
    assert_eq!(step.ask, get("/api/workers"));
    let (_, step) = go(&c, s, Reply::Http(Ok("[]".to_string())));
    assert_eq!(step.effects, vec![Effect::Print("  (empty)\n\n".to_string())]);
    let (_, step) = go(&c, ClientStage::Listing, Reply::Http(Err("down".to_string())));
    assert_eq!(step.effects, vec![Effect::Print("\n".to_string())]);
    let (_, step) = go(&c, ClientStage::Asking, Reply::Http(Err("down".to_string())));
    assert_eq!(
        step.effects,
        vec![Effect::Report("  [-] Orchestrator unreachable: down\n".to_string())]
    );
    assert_eq!(step.ask, None);
}

#[test]
fn lists_are_shown() {
    let lists = [
        (ClientCommand::Workers, "/api/workers", "Workers"),
        (ClientCommand::Queue, "/api/queue", "Package Queue"),
        (ClientCommand::Jobs, "/api/jobs", "Compile Jobs"),
    ];
    for (c, path, title) in lists {
        let (s, step) = go(&c, ClientStage::Start, Reply::Begin);
        assert_eq!(step.ask, get(path));
        let (_, step) = go(&c, s, Reply::Http(Ok("[]".to_string())));
        assert_eq!(
            step.effects,
            vec![Effect::Print(format!("\n  {}:\n\n  (empty)\n\n", title))]
        );
        let (_, step) = go(&c, ClientStage::Listing, Reply::Http(Err("down".to_string())));
        assert_eq!(step.effects, vec![Effect::Report("[-] down\n".to_string())]);
    }
}

#[test]
fn a_shell_is_opened() {
    let step = cmd_shell(ADDR, &None, "smech-farm", 22);
    assert_eq!(
        step.effects,
        vec![
            Effect::Print("[*] Opening smech-farm shell on smech-farm@farm:22\n".to_string()),
            Effect::Exec(Cmd::new("ssh").arg("-p").arg("22").arg("smech-farm@farm")),
        ]
    );
    let c = ClientCommand::Shell(Some("other".to_string()), "me".to_string(), 2222);
    let (end, step) = go(&c, ClientStage::Start, Reply::Begin);
    assert_eq!(end, ClientStage::Done);
    assert!(matches!(&step.effects[1], Effect::Exec(c) if c.words[3] == "me@other"));
}

#[test]
fn a_package_is_requested_by_the_client() {
    let c = ClientCommand::Download("kio".to_string(), Some("6".to_string()));
    let (s, step) = go(&c, ClientStage::Start, Reply::Begin);
    assert_eq!(step.ask, Some(Query::Env("USER".to_string())));
    let (s, step) = go(&c, s, Reply::Text(Some("ada".to_string())));
    let line = "[*] Requesting package 'kio' via orchestrator...\n".to_string();
    assert_eq!(step.effects, vec![Effect::Print(line)]);
    let body = r#"{"package_name":"kio","version":"6","worker_id":"client-ada"}"#;
    assert_eq!(step.ask, post("/api/queue/add", body));
    let (_, step) = go(&c, s, Reply::Http(Err("down".to_string())));
    assert_eq!(step.effects, vec![Effect::Report("[-] down\n".to_string())]);
}
