//! What the client's commands do.

use vstd::prelude::*;

use crate::jobs;
use crate::jobs::submit_body;
use crate::json_text;
use crate::json_text::print_json_table;
use crate::paths;
use crate::paths::file_name;
use crate::payload;
use crate::payload::package_payload;
use crate::records;
use crate::text;
use crate::text::{head, number, trim};
use crate::work;
use crate::work::{Cmd, Effect, EffectView, Query, QueryView, Reply, ReplyView, Step, StepView};

verus! {

/// What the client is told to do.
#[derive(Debug, PartialEq, Eq)]
pub enum ClientCommand {
    /// Push a file as a compile job, under a label.
    Push(String, Option<String>),
    Sync,
    Status,
    Workers,
    Queue,
    Jobs,
    /// Open a shell on a host, or on the orchestrator's, as a user, through a port.
    Shell(Option<String>, String, u16),
    /// Request a package, in a version.
    Download(String, Option<String>),
}

pub enum ClientCommandView {
    Push(Seq<char>, Option<Seq<char>>),
    Sync,
    Status,
    Workers,
    Queue,
    Jobs,
    Shell(Option<Seq<char>>, Seq<char>, u16),
    Download(Seq<char>, Option<Seq<char>>),
}

impl View for ClientCommand {
    type V = ClientCommandView;

    open spec fn view(&self) -> ClientCommandView {
        match self {
            ClientCommand::Push(f, l) => ClientCommandView::Push(f@, records::opt_text(*l)),
            ClientCommand::Sync => ClientCommandView::Sync,
            ClientCommand::Status => ClientCommandView::Status,
            ClientCommand::Workers => ClientCommandView::Workers,
            ClientCommand::Queue => ClientCommandView::Queue,
            ClientCommand::Jobs => ClientCommandView::Jobs,
            ClientCommand::Shell(h, u, p) => ClientCommandView::Shell(
                records::opt_text(*h),
                u@,
                *p,
            ),
            ClientCommand::Download(p, v) => ClientCommandView::Download(p@, records::opt_text(*v)),
        }
    }
}

/// What a command of the client waits for.
#[derive(Debug, PartialEq, Eq)]
pub enum ClientStage {
    Start,
    /// The file is looked for.
    Looking,
    /// The file is being read.
    Reading,
    /// The file was read, and the user's name was asked for.
    Labelling(Vec<u8>),
    /// The user's name was asked for.
    Naming,
    /// Something is being sent.
    Sending,
    /// The farm's status was asked for.
    Asking,
    /// A list was asked for.
    Listing,
    Done,
}

pub enum ClientStageView {
    Start,
    Looking,
    Reading,
    Labelling(Seq<u8>),
    Naming,
    Sending,
    Asking,
    Listing,
    Done,
}

impl View for ClientStage {
    type V = ClientStageView;

    open spec fn view(&self) -> ClientStageView {
        match self {
            ClientStage::Start => ClientStageView::Start,
            ClientStage::Looking => ClientStageView::Looking,
            ClientStage::Reading => ClientStageView::Reading,
            ClientStage::Labelling(c) => ClientStageView::Labelling(c@),
            ClientStage::Naming => ClientStageView::Naming,
            ClientStage::Sending => ClientStageView::Sending,
            ClientStage::Asking => ClientStageView::Asking,
            ClientStage::Listing => ClientStageView::Listing,
            ClientStage::Done => ClientStageView::Done,
        }
    }
}

/// The user's name, given the variable of the environment that holds it.
pub open spec fn user_of(env: Option<Seq<char>>) -> Seq<char> {
    match env {
        Some(u) => u,
        None => "client"@,
    }
}

/// The user's name, given the variable of the environment that holds it.
pub fn user_name(env: Option<String>) -> (r: String)
    ensures
        r@ == user_of(records::opt_text(env)),
{
    match env {
        Some(u) => u,
        None => "client".to_string(),
    }
}

/// Sends a file as a job that `by` submits.
pub open spec fn submit(addr: Seq<char>, file: Seq<char>, content: Seq<u8>, by: Seq<char>) -> (
    ClientStageView,
    StepView,
) {
    (
        ClientStageView::Sending,
        StepView::stop().print(
            "[*] Submitting compile job: "@ + paths::name_of(file) + " ("@ + text::nat_text(
                content.len(),
            ) + " bytes)\n"@,
        ).then_ask(
            QueryView::Post(
                addr,
                "/api/jobs/submit"@,
                jobs::submission(paths::name_of(file), content, by),
            ),
        ),
    )
}

/// Ends the client with a message and a status that says that it failed.
pub open spec fn fail(t: Seq<char>) -> (ClientStageView, StepView) {
    (ClientStageView::Done, StepView::stop().report(t).with(EffectView::Exit(1)))
}

/// Where the shell is opened: on the host that is given, or on the orchestrator's.
pub open spec fn shell_host(addr: Seq<char>, host: Option<Seq<char>>) -> Seq<char> {
    match host {
        Some(h) => h,
        None => text::before(addr, ":"@),
    }
}

/// What opens a shell.
pub open spec fn ssh_step(
    addr: Seq<char>,
    host: Option<Seq<char>>,
    user: Seq<char>,
    port: u16,
) -> StepView {
    let at = shell_host(addr, host);
    StepView::stop().print(
        "[*] Opening smech-farm shell on "@ + user + "@"@ + at + ":"@ + text::nat_text(port as nat)
            + "\n"@,
    ).exec(
        work::command("ssh"@).push("-p"@).push(text::nat_text(port as nat)).push(user + "@"@ + at),
    )
}

/// What opens a shell.
pub fn cmd_shell(addr: &str, host: &Option<String>, user: &str, port: u16) -> (r: Step)
    ensures
        r@ == ssh_step(addr@, records::opt_text(*host), user@, port),
{
    let at = match host {
        Some(h) => h.as_str(),
        None => head(addr, ":"),
    };
    let p = number(port as u64);
    let line = "[*] Opening smech-farm shell on ".to_string().concat(user).concat("@").concat(
        at,
    ).concat(":").concat(p.as_str()).concat("\n");
    let who = user.to_string().concat("@").concat(at);
    Step::stop().print(line).exec(Cmd::new("ssh").arg("-p").arg(p.as_str()).arg(who.as_str()))
}

/// The path and the title of a list that the client shows.
pub open spec fn list_of(c: ClientCommandView) -> (Seq<char>, Seq<char>) {
    match c {
        ClientCommandView::Workers => ("/api/workers"@, "Workers"@),
        ClientCommandView::Queue => ("/api/queue"@, "Package Queue"@),
        _ => ("/api/jobs"@, "Compile Jobs"@),
    }
}

/// The path and the title of a list that the client shows.
pub fn list_for(c: &ClientCommand) -> (r: (String, String))
    ensures
        (r.0@, r.1@) == list_of(c@),
{
    match c {
        ClientCommand::Workers => ("/api/workers".to_string(), "Workers".to_string()),
        ClientCommand::Queue => ("/api/queue".to_string(), "Package Queue".to_string()),
        _ => ("/api/jobs".to_string(), "Compile Jobs".to_string()),
    }
}

/// How a command of the client begins.
pub open spec fn client_start(addr: Seq<char>, c: ClientCommandView) -> (
    ClientStageView,
    StepView,
) {
    match c {
        ClientCommandView::Push(file, _) => (
            ClientStageView::Looking,
            StepView::stop().then_ask(QueryView::Exists(file)),
        ),
        ClientCommandView::Sync | ClientCommandView::Download(_, _) => (
            ClientStageView::Naming,
            StepView::stop().then_ask(QueryView::Env("USER"@)),
        ),
        ClientCommandView::Status => (
            ClientStageView::Asking,
            StepView::stop().print("\n  SmechFarm Status \u{2014} "@ + addr + "\n\n"@).then_ask(
                QueryView::Get(addr, "/api/status"@),
            ),
        ),
        ClientCommandView::Workers | ClientCommandView::Queue | ClientCommandView::Jobs => (
            ClientStageView::Listing,
            StepView::stop().then_ask(QueryView::Get(addr, list_of(c).0)),
        ),
        ClientCommandView::Shell(host, user, port) => (
            ClientStageView::Done,
            ssh_step(addr, host, user, port),
        ),
    }
}

/// What is sent once the user's name is known.
pub open spec fn named(addr: Seq<char>, c: ClientCommandView, user: Seq<char>) -> (
    ClientStageView,
    StepView,
) {
    match c {
        ClientCommandView::Sync => (
            ClientStageView::Sending,
            StepView::stop().print("[*] Triggering gateway sync on orchestrator...\n"@).then_ask(
                QueryView::Post(
                    addr,
                    "/api/gateway/sync"@,
                    "{\"triggered_by\":\""@ + user + "\"}"@,
                ),
            ),
        ),
        ClientCommandView::Download(package, version) => (
            ClientStageView::Sending,
            StepView::stop().print(
                "[*] Requesting package '"@ + package + "' via orchestrator...\n"@,
            ).then_ask(
                QueryView::Post(
                    addr,
                    "/api/queue/add"@,
                    payload::package_request(package, version, "client-"@ + user),
                ),
            ),
        ),
        _ => (ClientStageView::Naming, StepView::stop()),
    }
}

/// What is said of something that could not be sent.
pub open spec fn unsent(c: ClientCommandView, e: Seq<char>) -> Seq<char> {
    match c {
        ClientCommandView::Push(_, _) => "[-] Failed to submit job: "@ + e + "\n"@,
        ClientCommandView::Sync => "[-] Failed: "@ + e + "\n"@,
        _ => "[-] "@ + e + "\n"@,
    }
}

/// How a command of the client goes on.
pub open spec fn client_step(
    addr: Seq<char>,
    c: ClientCommandView,
    stage: ClientStageView,
    reply: ReplyView,
) -> (ClientStageView, StepView) {
    match (stage, reply) {
        (ClientStageView::Start, _) => client_start(addr, c),
        (ClientStageView::Looking, ReplyView::Found(b)) => match c {
            ClientCommandView::Push(file, _) => if b {
                (ClientStageView::Reading, StepView::stop().then_ask(QueryView::ReadBytes(file)))
            } else {
                fail("[-] File not found: "@ + file + "\n"@)
            },
            _ => (stage, StepView::stop()),
        },
        (ClientStageView::Reading, ReplyView::Bytes(r)) => match c {
            ClientCommandView::Push(file, label) => match r {
                Err(e) => fail("[-] Cannot read "@ + file + ": "@ + e + "\n"@),
                Ok(content) => match label {
                    Some(by) => submit(addr, file, content, by),
                    None => (
                        ClientStageView::Labelling(content),
                        StepView::stop().then_ask(QueryView::Env("USER"@)),
                    ),
                },
            },
            _ => (stage, StepView::stop()),
        },
        (ClientStageView::Labelling(content), ReplyView::Text(t)) => match c {
            ClientCommandView::Push(file, _) => submit(addr, file, content, user_of(t)),
            _ => (stage, StepView::stop()),
        },
        (ClientStageView::Naming, ReplyView::Text(t)) => named(addr, c, user_of(t)),
        (ClientStageView::Sending, ReplyView::Http(h)) => (
            ClientStageView::Done,
            match h {
                Ok(r) => StepView::stop().print("[+] "@ + text::trimmed(r) + "\n"@),
                Err(e) => StepView::stop().report(unsent(c, e)),
            },
        ),
        (ClientStageView::Asking, ReplyView::Http(h)) => match h {
            Ok(r) => (
                ClientStageView::Listing,
                StepView::stop().print(json_text::json_table(r) + "\n  Workers:\n"@).then_ask(
                    QueryView::Get(addr, "/api/workers"@),
                ),
            ),
            Err(e) => (
                ClientStageView::Done,
                StepView::stop().report("  [-] Orchestrator unreachable: "@ + e + "\n"@),
            ),
        },
        (ClientStageView::Listing, ReplyView::Http(h)) => (
            ClientStageView::Done,
            match (c, h) {
                (ClientCommandView::Status, Ok(r)) => StepView::stop().print(
                    json_text::json_table(r) + "\n"@,
                ),
                (ClientCommandView::Status, Err(_)) => StepView::stop().print("\n"@),
                (_, Ok(r)) => StepView::stop().print(
                    "\n  "@ + list_of(c).1 + ":\n\n"@ + json_text::json_table(r) + "\n"@,
                ),
                (_, Err(e)) => StepView::stop().report("[-] "@ + e + "\n"@),
            },
        ),
        (s, _) => (s, StepView::stop()),
    }
}

fn fail_with(t: String) -> (r: (ClientStage, Step))
    ensures
        (r.0@, r.1@) == fail(t@),
{
    (ClientStage::Done, Step::stop().report(t).with(Effect::Exit(1)))
}

/// Sends a file as a job that `by` submits.
pub fn cmd_push_compile(addr: &str, file: &str, content: &Vec<u8>, by: &str) -> (r: (
    ClientStage,
    Step,
))
    ensures
        (r.0@, r.1@) == submit(addr@, file@, content@, by@),
{
    let name = file_name(file);
    let line = "[*] Submitting compile job: ".to_string().concat(name.as_str()).concat(
        " (",
    ).concat(number(content.len() as u64).as_str()).concat(" bytes)\n");
    let body = submit_body(name.as_str(), content, by);
    (
        ClientStage::Sending,
        Step::stop().print(line).then_ask(
            Query::Post(addr.to_string(), "/api/jobs/submit".to_string(), body),
        ),
    )
}

fn start(addr: &str, c: &ClientCommand) -> (r: (ClientStage, Step))
    ensures
        (r.0@, r.1@) == client_start(addr@, c@),
{
    match c {
        ClientCommand::Push(file, _) => (
            ClientStage::Looking,
            Step::stop().then_ask(Query::Exists(file.as_str().to_string())),
        ),
        ClientCommand::Sync | ClientCommand::Download(_, _) => (
            ClientStage::Naming,
            Step::stop().then_ask(Query::Env("USER".to_string())),
        ),
        ClientCommand::Status => (
            ClientStage::Asking,
            Step::stop().print(
                "\n  SmechFarm Status \u{2014} ".to_string().concat(addr).concat("\n\n"),
            ).then_ask(Query::Get(addr.to_string(), "/api/status".to_string())),
        ),
        ClientCommand::Workers | ClientCommand::Queue | ClientCommand::Jobs => {
            let (path, _) = list_for(c);
            (
                ClientStage::Listing,
                Step::stop().then_ask(Query::Get(addr.to_string(), path)),
            )
        },
        ClientCommand::Shell(host, user, port) => (
            ClientStage::Done,
            cmd_shell(addr, host, user.as_str(), *port),
        ),
    }
}

fn send_named(addr: &str, c: &ClientCommand, user: &str) -> (r: (ClientStage, Step))
    ensures
        (r.0@, r.1@) == named(addr@, c@, user@),
{
    match c {
        ClientCommand::Sync => {
            let body = "{\"triggered_by\":\"".to_string().concat(user).concat("\"}");
            (
                ClientStage::Sending,
                Step::stop().print(
                    "[*] Triggering gateway sync on orchestrator...\n".to_string(),
                ).then_ask(Query::Post(addr.to_string(), "/api/gateway/sync".to_string(), body)),
            )
        },
        ClientCommand::Download(package, version) => {
            let who = "client-".to_string().concat(user);
            let body = package_payload(package.as_str(), version, who.as_str());
            (
                ClientStage::Sending,
                Step::stop().print(
                    "[*] Requesting package '".to_string().concat(package.as_str()).concat(
                        "' via orchestrator...\n",
                    ),
                ).then_ask(Query::Post(addr.to_string(), "/api/queue/add".to_string(), body)),
            )
        },
        _ => (ClientStage::Naming, Step::stop()),
    }
}

fn say_unsent(c: &ClientCommand, e: &str) -> (r: String)
    ensures
        r@ == unsent(c@, e@),
{
    match c {
        ClientCommand::Push(_, _) => "[-] Failed to submit job: ".to_string().concat(e).concat(
            "\n",
        ),
        ClientCommand::Sync => "[-] Failed: ".to_string().concat(e).concat("\n"),
        _ => "[-] ".to_string().concat(e).concat("\n"),
    }
}

fn show_list(c: &ClientCommand, h: Result<String, String>) -> (r: Step)
    ensures
        forall|addr: Seq<char>|
            (ClientStageView::Done, r@) == #[trigger] client_step(
                addr,
                c@,
                ClientStageView::Listing,
                ReplyView::Http(records::result_text(h)),
            ),
{
    match (c, h) {
        (ClientCommand::Status, Ok(r)) => Step::stop().print(
            print_json_table(r.as_str()).concat("\n"),
        ),
        (ClientCommand::Status, Err(_)) => Step::stop().print("\n".to_string()),
        (_, Ok(r)) => {
            let (_, title) = list_for(c);
            Step::stop().print(
                "\n  ".to_string().concat(title.as_str()).concat(":\n\n").concat(
                    print_json_table(r.as_str()).as_str(),
                ).concat("\n"),
            )
        },
        (_, Err(e)) => Step::stop().report("[-] ".to_string().concat(e.as_str()).concat("\n")),
    }
}

/// How a command of the client goes on.
pub fn client_round(addr: &str, c: &ClientCommand, stage: ClientStage, reply: Reply) -> (r: (
    ClientStage,
    Step,
))
    ensures
        (r.0@, r.1@) == client_step(addr@, c@, stage@, reply@),
{
    match (stage, reply) {
        (ClientStage::Start, _) => start(addr, c),
        (ClientStage::Looking, Reply::Found(b)) => match c {
            ClientCommand::Push(file, _) => {
                if b {
                    (
                        ClientStage::Reading,
                        Step::stop().then_ask(Query::ReadBytes(file.as_str().to_string())),
                    )
                } else {
                    fail_with(
                        "[-] File not found: ".to_string().concat(file.as_str()).concat("\n"),
                    )
                }
            },
            _ => (ClientStage::Looking, Step::stop()),
        },
        (ClientStage::Reading, Reply::Bytes(b)) => match c {
            ClientCommand::Push(file, label) => match b {
                Err(e) => fail_with(
                    "[-] Cannot read ".to_string().concat(file.as_str()).concat(": ").concat(
                        e.as_str(),
                    ).concat("\n"),
                ),
                Ok(content) => match label {
                    Some(by) => cmd_push_compile(addr, file.as_str(), &content, by.as_str()),
                    None => (
                        ClientStage::Labelling(content),
                        Step::stop().then_ask(Query::Env("USER".to_string())),
                    ),
                },
            },
            _ => (ClientStage::Reading, Step::stop()),
        },
        (ClientStage::Labelling(content), Reply::Text(t)) => match c {
            ClientCommand::Push(file, _) => cmd_push_compile(
                addr,
                file.as_str(),
                &content,
                user_name(t).as_str(),
            ),
            _ => (ClientStage::Labelling(content), Step::stop()),
        },
        (ClientStage::Naming, Reply::Text(t)) => send_named(addr, c, user_name(t).as_str()),
        (ClientStage::Sending, Reply::Http(h)) => {
            let step = match h {
                Ok(r) => Step::stop().print(
                    "[+] ".to_string().concat(trim(r.as_str())).concat("\n"),
                ),
                Err(e) => Step::stop().report(say_unsent(c, e.as_str())),
            };
            (ClientStage::Done, step)
        },
        (ClientStage::Asking, Reply::Http(h)) => match h {
            Ok(r) => (
                ClientStage::Listing,
                Step::stop().print(
                    print_json_table(r.as_str()).concat("\n  Workers:\n"),
                ).then_ask(Query::Get(addr.to_string(), "/api/workers".to_string())),
            ),
            Err(e) => (
                ClientStage::Done,
                Step::stop().report(
                    "  [-] Orchestrator unreachable: ".to_string().concat(e.as_str()).concat("\n"),
                ),
            ),
        },
        (ClientStage::Listing, Reply::Http(h)) => (ClientStage::Done, show_list(c, h)),
        (s, _) => (s, Step::stop()),
    }
}

/// A job is submitted under its label, or under the user's name where it has none.
pub proof fn law_submitter(
    addr: Seq<char>,
    file: Seq<char>,
    label: Option<Seq<char>>,
    content: Seq<u8>,
    user: Option<Seq<char>>,
)
    ensures
        ({
            let c = ClientCommandView::Push(file, label);
            let a = client_step(addr, c, ClientStageView::Reading, ReplyView::Bytes(Ok(content)));
            match label {
                Some(by) => a == submit(addr, file, content, by),
                None => a.1.ask == Some(QueryView::Env("USER"@)) && client_step(
                    addr,
                    c,
                    a.0,
                    ReplyView::Text(user),
                ) == submit(addr, file, content, user_of(user)),
            }
        }),
{
}

/// A file that is not there, or cannot be read, is not submitted, and the client says that it failed.
pub proof fn law_missing_file_fails(
    addr: Seq<char>,
    file: Seq<char>,
    label: Option<Seq<char>>,
    why: Seq<char>,
)
    ensures
        ({
            let c = ClientCommandView::Push(file, label);
            let a = client_step(addr, c, ClientStageView::Looking, ReplyView::Found(false));
            let b = client_step(addr, c, ClientStageView::Reading, ReplyView::Bytes(Err(why)));
            &&& a.1.ask is None && a.1.effects.last() == EffectView::Exit(1)
            &&& b.1.ask is None && b.1.effects.last() == EffectView::Exit(1)
        }),
{
}

/// How many answers a command of the client can still need.
pub open spec fn rank(s: ClientStageView) -> nat {
    match s {
        ClientStageView::Done => 0,
        ClientStageView::Start => 5,
        ClientStageView::Looking => 4,
        ClientStageView::Reading => 3,
        ClientStageView::Labelling(_) | ClientStageView::Naming | ClientStageView::Asking => 2,
        _ => 1,
    }
}

/// Whether a command of the client can be in a stage.
pub open spec fn reachable(c: ClientCommandView, s: ClientStageView) -> bool {
    match s {
        ClientStageView::Looking | ClientStageView::Reading | ClientStageView::Labelling(_) => c
            is Push,
        ClientStageView::Naming => c is Sync || c is Download,
        ClientStageView::Start => false,
        _ => true,
    }
}

/// Every command of the client comes to an end: each step leads nearer to it, and asks something
/// unless it is there.
pub proof fn law_client_ends(
    addr: Seq<char>,
    c: ClientCommandView,
    stage: ClientStageView,
    reply: ReplyView,
    next: ReplyView,
)
    requires
        rank(client_step(addr, c, stage, reply).0) < rank(stage),
        stage is Start || reachable(c, stage),
    ensures
        ({
            let x = client_step(addr, c, stage, reply);
            &&& reachable(c, x.0)
            &&& x.0 is Done <==> x.1.ask is None
            &&& x.1.ask matches Some(q) ==> work::fits(q, next) ==> rank(
                client_step(addr, c, x.0, next).0,
            ) < rank(x.0)
        }),
{
}

/// A client that has no user's name goes by `client`.
pub proof fn law_user(name: Seq<char>)
    ensures
        user_of(Some(name)) == name,
        user_of(None) == "client"@,
{
}

/// A file is looked for, read, and submitted under its own name, with the number of its bytes said;
/// what was answered is told.
pub proof fn law_push_run(
    addr: Seq<char>,
    file: Seq<char>,
    label: Seq<char>,
    content: Seq<u8>,
    said: Seq<char>,
)
    ensures
        ({
            let c = ClientCommandView::Push(file, Some(label));
            let a = client_step(addr, c, ClientStageView::Start, ReplyView::Begin);
            let b = client_step(addr, c, a.0, ReplyView::Found(true));
            let d = client_step(addr, c, b.0, ReplyView::Bytes(Ok(content)));
            let e = client_step(addr, c, d.0, ReplyView::Http(Ok(said)));
            let f = client_step(addr, c, d.0, ReplyView::Http(Err(said)));
            let missing = client_step(addr, c, a.0, ReplyView::Found(false));
            let unread = client_step(addr, c, b.0, ReplyView::Bytes(Err(said)));
            &&& a.1 == StepView::stop().then_ask(QueryView::Exists(file))
            &&& b.1 == StepView::stop().then_ask(QueryView::ReadBytes(file))
            &&& d.1 == StepView::stop().print(
                "[*] Submitting compile job: "@ + paths::name_of(file) + " ("@ + text::int_text(
                    content.len() as int,
                ) + " bytes)\n"@,
            ).then_ask(
                QueryView::Post(
                    addr,
                    "/api/jobs/submit"@,
                    jobs::submission(paths::name_of(file), content, label),
                ),
            )
            &&& e == (
                ClientStageView::Done,
                StepView::stop().print("[+] "@ + text::trimmed(said) + "\n"@),
            )
            &&& f == (
                ClientStageView::Done,
                StepView::stop().report("[-] Failed to submit job: "@ + said + "\n"@),
            )
            &&& missing == (
                ClientStageView::Done,
                StepView::stop().report("[-] File not found: "@ + file + "\n"@).with(
                    EffectView::Exit(1),
                ),
            )
            &&& unread == (
                ClientStageView::Done,
                StepView::stop().report("[-] Cannot read "@ + file + ": "@ + said + "\n"@).with(
                    EffectView::Exit(1),
                ),
            )
        }),
{
}

/// A file without a label is submitted by the user.
pub proof fn law_push_by_user(addr: Seq<char>, file: Seq<char>, content: Seq<u8>, user: Seq<char>)
    ensures
        ({
            let c = ClientCommandView::Push(file, None);
            let l = ClientCommandView::Push(file, Some(user));
            let a = client_step(addr, c, ClientStageView::Reading, ReplyView::Bytes(Ok(content)));
            &&& a.1 == StepView::stop().then_ask(QueryView::Env("USER"@))
            &&& client_step(addr, c, a.0, ReplyView::Text(Some(user))) == client_step(
                addr,
                l,
                ClientStageView::Reading,
                ReplyView::Bytes(Ok(content)),
            )
        }),
{
}

/// A sync is asked for in the user's name, and a package in the name of the user's client.
pub proof fn law_requests_in_a_name(
    addr: Seq<char>,
    package: Seq<char>,
    version: Option<Seq<char>>,
    user: Seq<char>,
    said: Seq<char>,
)
    ensures
        ({
            let c = ClientCommandView::Sync;
            let a = client_step(addr, c, ClientStageView::Start, ReplyView::Begin);
            let b = client_step(addr, c, a.0, ReplyView::Text(Some(user)));
            let d = client_step(addr, c, b.0, ReplyView::Http(Ok(said)));
            let e = client_step(addr, c, b.0, ReplyView::Http(Err(said)));
            &&& a.1 == StepView::stop().then_ask(QueryView::Env("USER"@))
            &&& b.1 == StepView::stop().print(
                "[*] Triggering gateway sync on orchestrator...\n"@,
            ).then_ask(
                QueryView::Post(
                    addr,
                    "/api/gateway/sync"@,
                    "{\"triggered_by\":\""@ + user + "\"}"@,
                ),
            )
            &&& d == (
                ClientStageView::Done,
                StepView::stop().print("[+] "@ + text::trimmed(said) + "\n"@),
            )
            &&& e == (
                ClientStageView::Done,
                StepView::stop().report("[-] Failed: "@ + said + "\n"@),
            )
        }),
        ({
            let c = ClientCommandView::Download(package, version);
            let a = client_step(addr, c, ClientStageView::Start, ReplyView::Begin);
            let b = client_step(addr, c, a.0, ReplyView::Text(Some(user)));
            let d = client_step(addr, c, b.0, ReplyView::Http(Ok(said)));
            let e = client_step(addr, c, b.0, ReplyView::Http(Err(said)));
            &&& a.1 == StepView::stop().then_ask(QueryView::Env("USER"@))
            &&& b.1 == StepView::stop().print(
                "[*] Requesting package '"@ + package + "' via orchestrator...\n"@,
            ).then_ask(
                QueryView::Post(
                    addr,
                    "/api/queue/add"@,
                    payload::package_request(package, version, "client-"@ + user),
                ),
            )
            &&& d == (
                ClientStageView::Done,
                StepView::stop().print("[+] "@ + text::trimmed(said) + "\n"@),
            )
            &&& e == (ClientStageView::Done, StepView::stop().report("[-] "@ + said + "\n"@))
        }),
{
}

/// Each list is asked for under its own path and shown under its own title.
pub proof fn law_lists_shown(addr: Seq<char>, c: ClientCommandView, json: Seq<char>)
    requires
        c is Workers || c is Queue || c is Jobs,
    ensures
        ({
            let path = if c is Workers {
                "/api/workers"@
            } else if c is Queue {
                "/api/queue"@
            } else {
                "/api/jobs"@
            };
            let title = if c is Workers {
                "Workers"@
            } else if c is Queue {
                "Package Queue"@
            } else {
                "Compile Jobs"@
            };
            let a = client_step(addr, c, ClientStageView::Start, ReplyView::Begin);
            let b = client_step(addr, c, a.0, ReplyView::Http(Ok(json)));
            let d = client_step(addr, c, a.0, ReplyView::Http(Err(json)));
            &&& a.1 == StepView::stop().then_ask(QueryView::Get(addr, path))
            &&& b == (
                ClientStageView::Done,
                StepView::stop().print(
                    "\n  "@ + title + ":\n\n"@ + json_text::json_table(json) + "\n"@,
                ),
            )
            &&& d == (ClientStageView::Done, StepView::stop().report("[-] "@ + json + "\n"@))
        }),
{
}

/// The farm's status is shown, and then its workers.
pub proof fn law_status_shown(addr: Seq<char>, farm: Seq<char>, workers: Seq<char>, why: Seq<char>)
    ensures
        ({
            let c = ClientCommandView::Status;
            let a = client_step(addr, c, ClientStageView::Start, ReplyView::Begin);
            let b = client_step(addr, c, a.0, ReplyView::Http(Ok(farm)));
            let d = client_step(addr, c, b.0, ReplyView::Http(Ok(workers)));
            let e = client_step(addr, c, b.0, ReplyView::Http(Err(why)));
            let f = client_step(addr, c, a.0, ReplyView::Http(Err(why)));
            &&& a.1 == StepView::stop().print(
                "\n  SmechFarm Status \u{2014} "@ + addr + "\n\n"@,
            ).then_ask(QueryView::Get(addr, "/api/status"@))
            &&& b.1 == StepView::stop().print(
                json_text::json_table(farm) + "\n  Workers:\n"@,
            ).then_ask(QueryView::Get(addr, "/api/workers"@))
            &&& d == (
                ClientStageView::Done,
                StepView::stop().print(json_text::json_table(workers) + "\n"@),
            )
            &&& e == (ClientStageView::Done, StepView::stop().print("\n"@))
            &&& f == (
                ClientStageView::Done,
                StepView::stop().report("  [-] Orchestrator unreachable: "@ + why + "\n"@),
            )
        }),
{
}

/// A shell is opened on the host that was named, else on the orchestrator's, whose address is used
/// without its port; as the user, through the port.
pub proof fn law_shell_is_opened(
    host: Seq<char>,
    rest: Seq<char>,
    at: Seq<char>,
    user: Seq<char>,
    port: u16,
)
    requires
        text::lacks(host, ':'),
    ensures
        ({
            let addr = host + ":"@ + rest;
            let p = text::int_text(port as int);
            let named = client_step(
                addr,
                ClientCommandView::Shell(Some(at), user, port),
                ClientStageView::Start,
                ReplyView::Begin,
            );
            let own = client_step(
                addr,
                ClientCommandView::Shell(None, user, port),
                ClientStageView::Start,
                ReplyView::Begin,
            );
            &&& named == (
                ClientStageView::Done,
                StepView::stop().print(
                    "[*] Opening smech-farm shell on "@ + user + "@"@ + at + ":"@ + p + "\n"@,
                ).exec(work::command("ssh"@).push("-p"@).push(p).push(user + "@"@ + at)),
            )
            &&& own == (
                ClientStageView::Done,
                StepView::stop().print(
                    "[*] Opening smech-farm shell on "@ + user + "@"@ + host + ":"@ + p + "\n"@,
                ).exec(work::command("ssh"@).push("-p"@).push(p).push(user + "@"@ + host)),
            )
        }),
{
    reveal_strlit(":");
    text::lemma_first_separator(host, ":"@, rest);
    assert((host + ":"@ + rest).take(host.len() as int) =~= host);
}

/// A command is viewed as the same command, with the same things in the same places.
pub proof fn law_client_command_views(
    a: String,
    b: Option<String>,
    u: String,
    port: u16,
)
    ensures
        ClientCommand::Push(a, b)@ == ClientCommandView::Push(a@, records::opt_text(b)),
        ClientCommand::Download(a, b)@ == ClientCommandView::Download(a@, records::opt_text(b)),
        ClientCommand::Shell(b, u, port)@ == ClientCommandView::Shell(
            records::opt_text(b),
            u@,
            port,
        ),
        ClientCommand::Sync@ == ClientCommandView::Sync,
        ClientCommand::Status@ == ClientCommandView::Status,
        ClientCommand::Workers@ == ClientCommandView::Workers,
        ClientCommand::Queue@ == ClientCommandView::Queue,
        ClientCommand::Jobs@ == ClientCommandView::Jobs,
{
}

/// Where a reply is not of the kind that was asked for, nothing is done and the same is awaited; once all
/// is done, nothing changes any more.
pub proof fn law_other_replies_change_nothing(addr: Seq<char>, c: ClientCommandView, stage: ClientStageView, reply: ReplyView)
    ensures
        stage is Looking && !(reply is Found && c is Push) ==> client_step(addr, c, stage, reply) == (stage, StepView::stop()),
        stage is Reading && !(reply is Bytes && c is Push) ==> client_step(addr, c, stage, reply) == (stage, StepView::stop()),
        stage is Labelling && !(reply is Text && c is Push) ==> client_step(addr, c, stage, reply) == (stage, StepView::stop()),
        stage is Naming && !(reply is Text && (c is Sync || c is Download)) ==> client_step(addr, c, stage, reply) == (stage, StepView::stop()),
        stage is Sending && !(reply is Http) ==> client_step(addr, c, stage, reply) == (stage, StepView::stop()),
        stage is Asking && !(reply is Http) ==> client_step(addr, c, stage, reply) == (stage, StepView::stop()),
        stage is Listing && !(reply is Http) ==> client_step(addr, c, stage, reply) == (stage, StepView::stop()),
        stage is Done ==> client_step(addr, c, stage, reply) == (stage, StepView::stop()),
{
}

} // verus!
