//! The worker: what it says of itself, and what its commands do.

use vstd::prelude::*;

use crate::order;
use crate::order::order_by_text;
use crate::packages;
use crate::packages::{package_file, NFS_PKG_PATH};
use crate::payload;
use crate::payload::{heartbeat_payload, package_payload};
use crate::records;
use crate::text;
use crate::text::{ends_with, number, split, starts_with, trim};
use crate::work;
use crate::work::{
    Cmd, Effect, EffectView, MachineInfo, MachineInfoView, Query, QueryView, Reply, ReplyView, Step,
    StepView,
};

verus! {

/// For how many seconds a worker rests between two heartbeats.
pub const HEARTBEAT_SECS: u64 = 15;

/// Where a worker finds the files of jobs.
pub const NFS_JOBS_PATH: &'static str = "/srv/smech-farm/packages/jobs";

/// Where a worker keeps its name for itself.
pub const WORKER_ID_PATH: &'static str = "/etc/smech-farm/worker-id";

/// Where a worker keeps the orchestrator's address in the tunnel.
pub const WG_ADDR_PATH: &'static str = "/etc/smech-farm/wg-orchestrator";

/// The variable of the environment that names the orchestrator.
pub const ORCHESTRATOR_ENV: &'static str = "SMECH_ORCHESTRATOR";

/// The orchestrator's address: what the command line says, or else the environment, or else the
/// machine itself.
pub open spec fn address_of(cli: Option<Seq<char>>, env: Option<Seq<char>>) -> Seq<char> {
    match cli {
        Some(a) => a,
        None => match env {
            Some(a) => a,
            None => "127.0.0.1:7734"@,
        },
    }
}

/// The orchestrator's address: what the command line says, or else the environment, or else the
/// machine itself.
pub fn orchestrator_addr(cli: Option<String>, env: Option<String>) -> (r: String)
    ensures
        r@ == address_of(records::opt_text(cli), records::opt_text(env)),
{
    match cli {
        Some(a) => a,
        None => match env {
            Some(a) => a,
            None => "127.0.0.1:7734".to_string(),
        },
    }
}

/// The host name, given what its file holds.
pub open spec fn host_of(file: Option<Seq<char>>) -> Seq<char> {
    text::trimmed(
        match file {
            Some(s) => s,
            None => "unknown"@,
        },
    )
}

/// The host name, given what its file holds.
pub fn hostname(file: &Option<String>) -> (r: String)
    ensures
        r@ == host_of(records::opt_text(*file)),
{
    match file {
        Some(s) => trim(s.as_str()).to_string(),
        None => trim("unknown").to_string(),
    }
}

/// The machine's address, given the one that it reaches the network from.
pub open spec fn ip_of(found: Option<Seq<char>>) -> Seq<char> {
    match found {
        Some(a) => a,
        None => "0.0.0.0"@,
    }
}

/// The machine's address, given the one that it reaches the network from.
pub fn local_ip(found: &Option<String>) -> (r: String)
    ensures
        r@ == ip_of(records::opt_text(*found)),
{
    match found {
        Some(a) => a.as_str().to_string(),
        None => "0.0.0.0".to_string(),
    }
}

/// How many of the lines of `list` begin with `p`.
pub open spec fn beginning(list: Seq<Seq<char>>, p: Seq<char>) -> nat
    decreases list.len(),
{
    if list.len() == 0 {
        0
    } else if text::begins(list.last(), p) {
        beginning(list.drop_last(), p) + 1
    } else {
        beginning(list.drop_last(), p)
    }
}

/// The number of processors, given what the processor list holds.
pub open spec fn cores_of(info: Option<Seq<char>>) -> nat {
    match info {
        Some(s) => beginning(text::pieces(s, "\n"@), "processor"@),
        None => 0,
    }
}

/// The number of processors, given what the processor list holds.
pub fn cpu_cores(info: &Option<String>) -> (r: u32)
    ensures
        r == cores_of(records::opt_text(*info)) as u32,
{
    match info {
        Some(s) => {
            proof {
                reveal_strlit("\n");
            }
            let list = split(s.as_str(), "\n");
            let ghost all = list.deep_view();
            let mut n: usize = 0;
            for i in 0..list.len()
                invariant
                    all == list.deep_view(),
                    n <= i,
                    n == beginning(all.take(i as int), "processor"@),
            {
                assert(all.take(i + 1).drop_last() =~= all.take(i as int));
                if starts_with(list[i], "processor") {
                    n += 1;
                }
            }
            assert(all.take(list@.len() as int) =~= all);
            #[verifier::truncate]
            (n as u32)
        },
        None => 0,
    }
}

/// A worker's name for itself, given what its file holds, the host name and the number of the
/// process; and what is done to keep it.
pub open spec fn id_of(file: Option<Seq<char>>, host: Seq<char>, pid: u32) -> (Seq<char>, StepView) {
    match file {
        Some(s) => (text::trimmed(s), StepView::stop()),
        None => {
            let id = "worker-"@ + host + "-"@ + text::nat_text(pid as nat);
            (
                id,
                StepView::stop().with(EffectView::MakeDir("/etc/smech-farm"@)).with(
                    EffectView::WriteText(WORKER_ID_PATH@, id),
                ),
            )
        },
    }
}

/// A worker's name for itself: the one that it kept, or a new one that it keeps.
pub fn worker_id(file: &Option<String>, host: &str, pid: u32) -> (r: (String, Step))
    ensures
        (r.0@, r.1@) == id_of(records::opt_text(*file), host@, pid),
{
    match file {
        Some(s) => (trim(s.as_str()).to_string(), Step::stop()),
        None => {
            let id = "worker-".to_string().concat(host).concat("-").concat(
                number(pid as u64).as_str(),
            );
            let step = Step::stop().with(Effect::MakeDir("/etc/smech-farm".to_string())).with(
                Effect::WriteText(WORKER_ID_PATH.to_string(), id.as_str().to_string()),
            );
            (id, step)
        },
    }
}

/// A name that a worker made up is kept, and is the one that it reads back.
pub proof fn law_id_is_kept(host: Seq<char>, pid: u32, other: Seq<char>, again: u32)
    ensures
        id_of(None, host, pid).1.effects.contains(
            EffectView::WriteText(WORKER_ID_PATH@, id_of(None, host, pid).0),
        ),
        id_of(Some(id_of(None, host, pid).0), other, again) == (
            id_of(None, host, pid).0,
            StepView::stop(),
        ),
{
    let id = id_of(None, host, pid).0;
    assert(id_of(None, host, pid).1.effects[1] == EffectView::WriteText(WORKER_ID_PATH@, id));
    reveal_strlit("worker-");
    assert(id[0] == 'w');
    let digits = text::nat_text(pid as nat);
    text::lemma_nat_text(pid as nat);
    assert(id.last() == digits.last());
    assert(text::is_digit(digits[digits.len() - 1]));
}

/// What the worker's daemon waits for.
#[derive(Debug, PartialEq, Eq)]
pub enum BeatStage {
    Start,
    /// The worker's name for itself was asked for.
    Naming,
    /// What the machine says of itself was asked for.
    Measuring(String),
    /// The heartbeat is being sent.
    Sending(String),
    /// The sign that there are packages is looked for.
    Checking(String),
}

pub enum BeatStageView {
    Start,
    Naming,
    Measuring(Seq<char>),
    Sending(Seq<char>),
    Checking(Seq<char>),
}

impl View for BeatStage {
    type V = BeatStageView;

    open spec fn view(&self) -> BeatStageView {
        match self {
            BeatStage::Start => BeatStageView::Start,
            BeatStage::Naming => BeatStageView::Naming,
            BeatStage::Measuring(id) => BeatStageView::Measuring(id@),
            BeatStage::Sending(id) => BeatStageView::Sending(id@),
            BeatStage::Checking(id) => BeatStageView::Checking(id@),
        }
    }
}

/// What a worker `id` on a machine reports of itself.
pub open spec fn report_of(id: Seq<char>, m: MachineInfoView) -> Seq<char> {
    payload::heartbeat(id, host_of(m.hostname), ip_of(m.address), cores_of(m.cpuinfo) as u32)
}

/// What a worker `id` on a machine reports of itself.
pub fn send_heartbeat(id: &str, m: &MachineInfo) -> (r: String)
    ensures
        r@ == report_of(id@, m@),
{
    heartbeat_payload(
        id,
        hostname(&m.hostname).as_str(),
        local_ip(&m.address).as_str(),
        cpu_cores(&m.cpuinfo),
    )
}

/// The sign that there are packages.
pub open spec fn ready_flag() -> Seq<char> {
    NFS_PKG_PATH@ + "/PACKAGES_READY"@
}

/// What is done about the sign that there are packages: it is taken away.
pub open spec fn ready_step(found: bool) -> StepView {
    if found {
        StepView::stop().report("[smech-farm-worker] packages updated on NFS share\n"@).with(
            EffectView::Remove(ready_flag()),
        )
    } else {
        StepView::stop()
    }
}

/// What is done about the sign that there are packages: it is taken away.
pub fn check_packages_ready(found: bool) -> (r: Step)
    ensures
        r@ == ready_step(found),
{
    if found {
        Step::stop().report(
            "[smech-farm-worker] packages updated on NFS share\n".to_string(),
        ).with(Effect::Remove(NFS_PKG_PATH.to_string().concat("/PACKAGES_READY")))
    } else {
        Step::stop()
    }
}

/// How the worker's daemon goes on: there is no end to it.
pub open spec fn beat_step(addr: Seq<char>, stage: BeatStageView, reply: ReplyView) -> (
    BeatStageView,
    StepView,
) {
    match (stage, reply) {
        (BeatStageView::Start, _) => (
            BeatStageView::Naming,
            StepView::stop().report(
                "[smech-farm-worker] starting heartbeat daemon \u{2192} "@ + addr + "\n"@,
            ).then_ask(QueryView::WorkerId),
        ),
        (BeatStageView::Naming, ReplyView::Text(Some(id))) => (
            BeatStageView::Measuring(id),
            StepView::stop().then_ask(QueryView::Machine),
        ),
        (BeatStageView::Measuring(id), ReplyView::Machine(m)) => (
            BeatStageView::Sending(id),
            StepView::stop().then_ask(
                QueryView::Post(addr, "/api/workers/heartbeat"@, report_of(id, m)),
            ),
        ),
        (BeatStageView::Sending(id), ReplyView::Http(h)) => (
            BeatStageView::Checking(id),
            (match h {
                Ok(_) => StepView::stop(),
                Err(e) => StepView::stop().report(
                    "[smech-farm-worker] heartbeat failed: "@ + e + "\n"@,
                ),
            }).then_ask(QueryView::Exists(ready_flag())),
        ),
        (BeatStageView::Checking(id), ReplyView::Found(b)) => (
            BeatStageView::Measuring(id),
            ready_step(b).with(EffectView::Sleep(HEARTBEAT_SECS)).then_ask(QueryView::Machine),
        ),
        (s, _) => (s, StepView::stop()),
    }
}

/// How the worker's daemon goes on: it sends a heartbeat, looks for packages, and rests.
pub fn cmd_daemon(addr: &str, stage: BeatStage, reply: Reply) -> (r: (BeatStage, Step))
    ensures
        (r.0@, r.1@) == beat_step(addr@, stage@, reply@),
{
    match (stage, reply) {
        (BeatStage::Start, _) => (
            BeatStage::Naming,
            Step::stop().report(
                "[smech-farm-worker] starting heartbeat daemon \u{2192} ".to_string().concat(
                    addr,
                ).concat("\n"),
            ).then_ask(Query::WorkerId),
        ),
        (BeatStage::Naming, Reply::Text(Some(id))) => (
            BeatStage::Measuring(id),
            Step::stop().then_ask(Query::Machine),
        ),
        (BeatStage::Measuring(id), Reply::Machine(m)) => {
            let body = send_heartbeat(id.as_str(), &m);
            (
                BeatStage::Sending(id),
                Step::stop().then_ask(
                    Query::Post(addr.to_string(), "/api/workers/heartbeat".to_string(), body),
                ),
            )
        },
        (BeatStage::Sending(id), Reply::Http(h)) => {
            let step = match h {
                Ok(_) => Step::stop(),
                Err(e) => Step::stop().report(
                    "[smech-farm-worker] heartbeat failed: ".to_string().concat(
                        e.as_str(),
                    ).concat("\n"),
                ),
            };
            let flag = NFS_PKG_PATH.to_string().concat("/PACKAGES_READY");
            (BeatStage::Checking(id), step.then_ask(Query::Exists(flag)))
        },
        (BeatStage::Checking(id), Reply::Found(b)) => (
            BeatStage::Measuring(id),
            check_packages_ready(b).with(Effect::Sleep(HEARTBEAT_SECS)).then_ask(Query::Machine),
        ),
        (s, _) => (s, Step::stop()),
    }
}

/// How often a worker looks for a package that it asked for.
pub const POLLS: u32 = 24;

/// What a request for a package waits for.
#[derive(Clone, Copy, Debug, PartialEq, Eq)]
pub enum FetchStage {
    Start,
    /// The worker's name for itself was asked for.
    Naming,
    /// The request is being sent.
    Asking,
    /// The package is looked for, after so many times that it was not there.
    Waiting(u32),
    Done,
}

/// How a request for a package goes on.
pub open spec fn fetch_step(
    addr: Seq<char>,
    package: Seq<char>,
    version: Option<Seq<char>>,
    stage: FetchStage,
    reply: ReplyView,
) -> (FetchStage, StepView) {
    let dest = packages::package_path(package);
    match (stage, reply) {
        (FetchStage::Start, _) => (
            FetchStage::Naming,
            StepView::stop().then_ask(QueryView::WorkerId),
        ),
        (FetchStage::Naming, ReplyView::Text(Some(id))) => (
            FetchStage::Asking,
            StepView::stop().print(
                "[*] Requesting package '"@ + package + "' from orchestrator queue...\n"@,
            ).then_ask(
                QueryView::Post(
                    addr,
                    "/api/queue/add"@,
                    payload::package_request(package, version, id),
                ),
            ),
        ),
        (FetchStage::Asking, ReplyView::Http(h)) => (
            FetchStage::Waiting(0),
            (match h {
                Ok(r) => StepView::stop().print("[+] "@ + text::trimmed(r) + "\n"@),
                Err(e) => StepView::stop().report("[-] Failed: "@ + e + "\n"@),
            }).then_ask(QueryView::Exists(dest)),
        ),
        (FetchStage::Waiting(i), ReplyView::Found(b)) => if b {
            (
                FetchStage::Done,
                StepView::stop().print("[+] Package available at: "@ + dest + "\n"@),
            )
        } else {
            let step = StepView::stop().print(
                "    waiting... ("@ + text::nat_text((i + 1) as nat) + "/24)\n"@,
            ).with(EffectView::Sleep(5));
            if i + 1 < POLLS {
                (FetchStage::Waiting((i + 1) as u32), step.then_ask(QueryView::Exists(dest)))
            } else {
                (FetchStage::Done, step.report("[-] Timed out waiting for package.\n"@))
            }
        },
        (s, _) => (s, StepView::stop()),
    }
}

/// How a request for a package goes on: it is sent, and the package is waited for.
pub fn cmd_download_package(
    addr: &str,
    package: &str,
    version: &Option<String>,
    stage: FetchStage,
    reply: Reply,
) -> (r: (FetchStage, Step))
    requires
        stage matches FetchStage::Waiting(i) ==> i < POLLS,
    ensures
        (r.0, r.1@) == fetch_step(addr@, package@, records::opt_text(*version), stage, reply@),
        r.0 matches FetchStage::Waiting(i) ==> i < POLLS,
{
    match (stage, reply) {
        (FetchStage::Start, _) => (FetchStage::Naming, Step::stop().then_ask(Query::WorkerId)),
        (FetchStage::Naming, Reply::Text(Some(id))) => {
            let body = package_payload(package, version, id.as_str());
            (
                FetchStage::Asking,
                Step::stop().print(
                    "[*] Requesting package '".to_string().concat(package).concat(
                        "' from orchestrator queue...\n",
                    ),
                ).then_ask(Query::Post(addr.to_string(), "/api/queue/add".to_string(), body)),
            )
        },
        (FetchStage::Asking, Reply::Http(h)) => {
            let step = match h {
                Ok(r) => Step::stop().print(
                    "[+] ".to_string().concat(trim(r.as_str())).concat("\n"),
                ),
                Err(e) => Step::stop().report(
                    "[-] Failed: ".to_string().concat(e.as_str()).concat("\n"),
                ),
            };
            (FetchStage::Waiting(0), step.then_ask(Query::Exists(package_file(package))))
        },
        (FetchStage::Waiting(i), Reply::Found(b)) => {
            if b {
                (
                    FetchStage::Done,
                    Step::stop().print(
                        "[+] Package available at: ".to_string().concat(
                            package_file(package).as_str(),
                        ).concat("\n"),
                    ),
                )
            } else {
                let step = Step::stop().print(
                    "    waiting... (".to_string().concat(number((i + 1) as u64).as_str()).concat(
                        "/24)\n",
                    ),
                ).with(Effect::Sleep(5));
                if i + 1 < POLLS {
                    (
                        FetchStage::Waiting(i + 1),
                        step.then_ask(Query::Exists(package_file(package))),
                    )
                } else {
                    (
                        FetchStage::Done,
                        step.report("[-] Timed out waiting for package.\n".to_string()),
                    )
                }
            }
        },
        (s, _) => (s, Step::stop()),
    }
}

/// What is said of a package that is there, or not.
pub open spec fn check_text(package: Seq<char>, found: bool) -> Seq<char> {
    if found {
        "[+] "@ + package + " \u{2014} available at "@ + packages::package_path(package) + "\n"@
    } else {
        "[-] "@ + package + " \u{2014} not found on NFS share\n"@
    }
}

/// Says whether a package is there.
pub fn cmd_check_package(package: &str, found: bool) -> (r: String)
    ensures
        r@ == check_text(package@, found),
{
    if found {
        "[+] ".to_string().concat(package).concat(" \u{2014} available at ").concat(
            package_file(package).as_str(),
        ).concat("\n")
    } else {
        "[-] ".to_string().concat(package).concat(" \u{2014} not found on NFS share\n")
    }
}

/// A package that was asked for is looked for so many times, and no more.
pub proof fn law_waiting_ends(
    addr: Seq<char>,
    package: Seq<char>,
    version: Option<Seq<char>>,
    i: u32,
    found: bool,
)
    requires
        i < POLLS,
    ensures
        ({
            let next = fetch_step(
                addr,
                package,
                version,
                FetchStage::Waiting(i),
                ReplyView::Found(found),
            );
            &&& next.0 is Done <==> found || i + 1 == POLLS
            &&& next.0 is Done <==> next.1.ask is None
            &&& !(next.0 is Done) ==> next.0 == FetchStage::Waiting((i + 1) as u32)
        }),
{
}

/// What the worker's status waits for.
#[derive(Clone, Copy, Debug, PartialEq, Eq)]
pub enum StatusStage {
    Start,
    /// The worker's name for itself was asked for.
    Naming,
    /// What the machine says of itself was asked for.
    Measuring,
    /// The orchestrator's address in the tunnel is looked for.
    Looking,
    /// It is being read.
    Reading,
    /// The farm's status was asked for.
    Asking,
    Done,
}

/// The lines that say what a worker on a machine is.
pub open spec fn self_text(addr: Seq<char>, m: MachineInfoView) -> Seq<char> {
    "  Hostname     : "@ + host_of(m.hostname) + "\n  IP           : "@ + ip_of(m.address)
        + "\n  Cores        : "@ + text::nat_text((cores_of(m.cpuinfo) as u32) as nat)
        + "\n  NFS share    : "@ + NFS_PKG_PATH@ + "\n  Orchestrator : "@ + addr + "\n"@
}

/// How the worker's status goes on.
pub open spec fn status_step(addr: Seq<char>, stage: StatusStage, reply: ReplyView) -> (
    StatusStage,
    StepView,
) {
    match (stage, reply) {
        (StatusStage::Start, _) => (
            StatusStage::Naming,
            StepView::stop().then_ask(QueryView::WorkerId),
        ),
        (StatusStage::Naming, ReplyView::Text(Some(id))) => (
            StatusStage::Measuring,
            StepView::stop().print("  Worker ID    : "@ + id + "\n"@).then_ask(QueryView::Machine),
        ),
        (StatusStage::Measuring, ReplyView::Machine(m)) => (
            StatusStage::Looking,
            StepView::stop().print(self_text(addr, m)).then_ask(QueryView::Exists(WG_ADDR_PATH@)),
        ),
        (StatusStage::Looking, ReplyView::Found(b)) => if b {
            (StatusStage::Reading, StepView::stop().then_ask(QueryView::ReadText(WG_ADDR_PATH@)))
        } else {
            (
                StatusStage::Asking,
                StepView::stop().then_ask(QueryView::Get(addr, "/api/status"@)),
            )
        },
        (StatusStage::Reading, ReplyView::Text(t)) => (
            StatusStage::Asking,
            StepView::stop().print(
                "  WireGuard    : active ("@ + text::trimmed(or_empty(t)) + ")\n"@,
            ).then_ask(QueryView::Get(addr, "/api/status"@)),
        ),
        (StatusStage::Asking, ReplyView::Http(h)) => (
            StatusStage::Done,
            StepView::stop().print(
                match h {
                    Ok(r) => "  Farm status  : "@ + text::trimmed(r) + "\n"@,
                    Err(e) => "  Farm status  : unreachable ("@ + e + ")\n"@,
                },
            ),
        ),
        (s, _) => (s, StepView::stop()),
    }
}

/// What a file holds, or nothing where it cannot be read.
pub open spec fn or_empty(t: Option<Seq<char>>) -> Seq<char> {
    match t {
        Some(s) => s,
        None => Seq::empty(),
    }
}

/// What a file holds without white space at its ends, or nothing where it cannot be read.
pub fn trimmed_or_empty(t: &Option<String>) -> (r: String)
    ensures
        r@ == text::trimmed(or_empty(records::opt_text(*t))),
{
    match t {
        Some(s) => trim(s.as_str()).to_string(),
        None => {
            let e = String::new();
            assert(text::trimmed(e@) =~= e@);
            e
        },
    }
}

/// How the worker's status goes on.
pub fn cmd_status(addr: &str, stage: StatusStage, reply: Reply) -> (r: (StatusStage, Step))
    ensures
        (r.0, r.1@) == status_step(addr@, stage, reply@),
{
    match (stage, reply) {
        (StatusStage::Start, _) => (
            StatusStage::Naming,
            Step::stop().then_ask(Query::WorkerId),
        ),
        (StatusStage::Naming, Reply::Text(Some(id))) => (
            StatusStage::Measuring,
            Step::stop().print(
                "  Worker ID    : ".to_string().concat(id.as_str()).concat("\n"),
            ).then_ask(Query::Machine),
        ),
        (StatusStage::Measuring, Reply::Machine(m)) => {
            let lines = "  Hostname     : ".to_string().concat(
                hostname(&m.hostname).as_str(),
            ).concat("\n  IP           : ").concat(local_ip(&m.address).as_str()).concat(
                "\n  Cores        : ",
            ).concat(number(cpu_cores(&m.cpuinfo) as u64).as_str()).concat(
                "\n  NFS share    : ",
            ).concat(NFS_PKG_PATH).concat("\n  Orchestrator : ").concat(addr).concat("\n");
            (
                StatusStage::Looking,
                Step::stop().print(lines).then_ask(Query::Exists(WG_ADDR_PATH.to_string())),
            )
        },
        (StatusStage::Looking, Reply::Found(b)) => {
            if b {
                (
                    StatusStage::Reading,
                    Step::stop().then_ask(Query::ReadText(WG_ADDR_PATH.to_string())),
                )
            } else {
                (
                    StatusStage::Asking,
                    Step::stop().then_ask(Query::Get(addr.to_string(), "/api/status".to_string())),
                )
            }
        },
        (StatusStage::Reading, Reply::Text(t)) => (
            StatusStage::Asking,
            Step::stop().print(
                "  WireGuard    : active (".to_string().concat(
                    trimmed_or_empty(&t).as_str(),
                ).concat(")\n"),
            ).then_ask(Query::Get(addr.to_string(), "/api/status".to_string())),
        ),
        (StatusStage::Asking, Reply::Http(h)) => {
            let line = match h {
                Ok(r) => "  Farm status  : ".to_string().concat(trim(r.as_str())).concat("\n"),
                Err(e) => "  Farm status  : unreachable (".to_string().concat(e.as_str()).concat(
                    ")\n",
                ),
            };
            (StatusStage::Done, Step::stop().print(line))
        },
        (s, _) => (s, Step::stop()),
    }
}

/// The archives among `names`, in their order.
pub open spec fn archives(names: Seq<Seq<char>>) -> Seq<Seq<char>>
    decreases names.len(),
{
    if names.len() == 0 {
        Seq::empty()
    } else if text::ends(names.last(), ".tar.xz"@) {
        archives(names.drop_last()).push(names.last())
    } else {
        archives(names.drop_last())
    }
}

/// `list`, sorted.
pub open spec fn sorted(list: Seq<Seq<char>>) -> Seq<Seq<char>> {
    order::lines(
        list,
        order::ordering(list.len(), order::by_text(list)),
        list.len(),
        |s: Seq<char>| s,
    )
}

/// One line for each of `list`.
pub open spec fn indented(list: Seq<Seq<char>>) -> Seq<char>
    decreases list.len(),
{
    if list.len() == 0 {
        Seq::empty()
    } else {
        indented(list.drop_last()) + "    "@ + list.last() + "\n"@
    }
}

/// What is said of the packages on the share, given the names there.
pub open spec fn list_text(names: Option<Seq<Seq<char>>>) -> Seq<char> {
    match names {
        None => "[-] NFS share not mounted at "@ + NFS_PKG_PATH@ + "\n"@,
        Some(all) => {
            let list = sorted(archives(all));
            if list.len() == 0 {
                "  No packages on NFS share yet.\n"@
            } else {
                "  Packages on NFS share ("@ + text::nat_text(list.len()) + "):\n"@ + indented(list)
            }
        },
    }
}

fn archives_of<'a>(names: &'a Vec<String>) -> (r: Vec<&'a str>)
    ensures
        r.deep_view() == archives(names.deep_view()),
{
    let ghost all = names.deep_view();
    let mut out: Vec<&'a str> = Vec::new();
    assert(out.deep_view() =~= archives(all.take(0)));
    for i in 0..names.len()
        invariant
            all == names.deep_view(),
            out.deep_view() == archives(all.take(i as int)),
    {
        assert(all.take(i + 1).drop_last() =~= all.take(i as int));
        let name = names[i].as_str();
        if ends_with(name, ".tar.xz") {
            let ghost was = out.deep_view();
            out.push(name);
            assert(out.deep_view() =~= was.push(name@));
        }
    }
    assert(all.take(names@.len() as int) =~= all);
    out
}

/// Says which packages are on the share, given the names there.
pub fn cmd_list_packages(names: &Option<Vec<String>>) -> (r: String)
    ensures
        r@ == list_text(
            match *names {
                Some(n) => Some(n.deep_view()),
                None => None,
            },
        ),
{
    match names {
        None => "[-] NFS share not mounted at ".to_string().concat(NFS_PKG_PATH).concat("\n"),
        Some(all) => {
            let list = archives_of(all);
            let order = order_by_text(&list);
            let n = order.len();
            let ghost there = list.deep_view();
            let ghost goal = sorted(there);
            proof {
                assert(there.len() == list@.len());
                assert(order::ints(order@).len() == n);
            }
            if n == 0 {
                return "  No packages on NFS share yet.\n".to_string();
            }
            let mut out = "  Packages on NFS share (".to_string().concat(
                number(n as u64).as_str(),
            ).concat("):\n");
            let ghost top = out@;
            assert(top + indented(goal.take(0)) =~= top);
            for i in 0..n
                invariant
                    there == list.deep_view(),
                    goal == sorted(there),
                    n == order@.len(),
                    n == goal.len(),
                    order::ints(order@) == order::ordering(there.len(), order::by_text(there)),
                    forall|k: int| 0 <= k < order@.len() ==> #[trigger] order@[k] < list@.len(),
                    out@ == top + indented(goal.take(i as int)),
            {
                let k = order[i];
                assert(order::ints(order@)[i as int] == k);
                assert(goal[i as int] == list@[k as int]@);
                assert(goal.take(i + 1).drop_last() =~= goal.take(i as int));
                out.append("    ");
                out.append(list[k]);
                out.append("\n");
                assert(out@ =~= top + indented(goal.take(i + 1)));
            }
            assert(goal.take(n as int) =~= goal);
            out
        },
    }
}

/// What the status of the worker's tunnel waits for.
#[derive(Clone, Copy, Debug, PartialEq, Eq)]
pub enum WgStatusStage {
    Start,
    /// The configuration is looked for.
    Config,
    /// The public key is looked for.
    Key,
    /// The public key is being read.
    ReadKey,
    /// The orchestrator's address in the tunnel is being read.
    Address,
    Done,
}

/// Where a worker's private key lies.
pub const WG_KEY_PATH: &'static str = "/etc/smech-farm/worker-wg.key";

/// Where a worker's public key lies.
pub const WG_PUB_PATH: &'static str = "/etc/smech-farm/worker-wg.pub";

/// Where the configuration of the interface `iface` lies: the file names the interface.
pub open spec fn conf_path(iface: Seq<char>) -> Seq<char> {
    "/etc/wireguard/"@ + iface + ".conf"@
}

/// Where the configuration of the interface `iface` lies.
pub fn conf_file(iface: &str) -> (r: String)
    ensures
        r@ == conf_path(iface@),
{
    "/etc/wireguard/".to_string().concat(iface).concat(".conf")
}

/// How the status of the worker's tunnel goes on.
pub open spec fn wg_status_step(iface: Seq<char>, stage: WgStatusStage, reply: ReplyView) -> (
    WgStatusStage,
    StepView,
) {
    match (stage, reply) {
        (WgStatusStage::Start, _) => (
            WgStatusStage::Config,
            StepView::stop().print("[*] WireGuard interface: "@ + iface + "\n"@).then_ask(
                QueryView::Exists(conf_path(iface)),
            ),
        ),
        (WgStatusStage::Config, ReplyView::Found(b)) => (
            WgStatusStage::Key,
            (if b {
                StepView::stop().print("[+] Config: "@ + conf_path(iface) + "\n"@)
            } else {
                StepView::stop()
            }).then_ask(QueryView::Exists(WG_PUB_PATH@)),
        ),
        (WgStatusStage::Key, ReplyView::Found(b)) => if b {
            (WgStatusStage::ReadKey, StepView::stop().then_ask(QueryView::ReadText(WG_PUB_PATH@)))
        } else {
            (WgStatusStage::Address, StepView::stop().then_ask(QueryView::ReadText(WG_ADDR_PATH@)))
        },
        (WgStatusStage::ReadKey, ReplyView::Text(t)) => (
            WgStatusStage::Address,
            StepView::stop().print(
                "[+] Worker public key: "@ + text::trimmed(or_empty(t)) + "\n"@,
            ).then_ask(QueryView::ReadText(WG_ADDR_PATH@)),
        ),
        (WgStatusStage::Address, ReplyView::Text(t)) => (
            WgStatusStage::Done,
            (match t {
                Some(a) => StepView::stop().print(
                    "[+] WireGuard orchestrator: "@ + text::trimmed(a) + "\n"@,
                ),
                None => StepView::stop(),
            }).exec(work::command("wg"@).push("show"@).push(iface)),
        ),
        (s, _) => (s, StepView::stop()),
    }
}

/// How the status of the worker's tunnel goes on.
pub fn cmd_wg_status(iface: &str, stage: WgStatusStage, reply: Reply) -> (r: (WgStatusStage, Step))
    ensures
        (r.0, r.1@) == wg_status_step(iface@, stage, reply@),
{
    match (stage, reply) {
        (WgStatusStage::Start, _) => (
            WgStatusStage::Config,
            Step::stop().print(
                "[*] WireGuard interface: ".to_string().concat(iface).concat("\n"),
            ).then_ask(Query::Exists(conf_file(iface))),
        ),
        (WgStatusStage::Config, Reply::Found(b)) => {
            let step = if b {
                Step::stop().print("[+] Config: ".to_string().concat(
                    conf_file(iface).as_str(),
                ).concat("\n"))
            } else {
                Step::stop()
            };
            (WgStatusStage::Key, step.then_ask(Query::Exists(WG_PUB_PATH.to_string())))
        },
        (WgStatusStage::Key, Reply::Found(b)) => {
            if b {
                (
                    WgStatusStage::ReadKey,
                    Step::stop().then_ask(Query::ReadText(WG_PUB_PATH.to_string())),
                )
            } else {
                (
                    WgStatusStage::Address,
                    Step::stop().then_ask(Query::ReadText(WG_ADDR_PATH.to_string())),
                )
            }
        },
        (WgStatusStage::ReadKey, Reply::Text(t)) => (
            WgStatusStage::Address,
            Step::stop().print(
                "[+] Worker public key: ".to_string().concat(
                    trimmed_or_empty(&t).as_str(),
                ).concat("\n"),
            ).then_ask(Query::ReadText(WG_ADDR_PATH.to_string())),
        ),
        (WgStatusStage::Address, Reply::Text(t)) => {
            let step = match t {
                Some(a) => Step::stop().print(
                    "[+] WireGuard orchestrator: ".to_string().concat(trim(a.as_str())).concat(
                        "\n",
                    ),
                ),
                None => Step::stop(),
            };
            (WgStatusStage::Done, step.exec(Cmd::new("wg").arg("show").arg(iface)))
        },
        (s, _) => (s, Step::stop()),
    }
}

proof fn lemma_archives(names: Seq<Seq<char>>, s: Seq<char>)
    ensures
        archives(names).contains(s) <==> names.contains(s) && text::ends(s, ".tar.xz"@),
    decreases names.len(),
{
    if names.len() > 0 {
        let rest = names.drop_last();
        let all = archives(names);
        lemma_archives(rest, s);
        if all.contains(s) {
            let k = choose|k: int| 0 <= k < all.len() && all[k] == s;
            if k < archives(rest).len() {
                assert(archives(rest)[k] == s);
                let m = choose|m: int| 0 <= m < rest.len() && rest[m] == s;
                assert(names[m] == s);
            } else {
                assert(names[names.len() - 1] == s);
            }
        }
        if names.contains(s) && text::ends(s, ".tar.xz"@) {
            let m = choose|m: int| 0 <= m < names.len() && names[m] == s;
            if m < rest.len() {
                assert(rest[m] == s);
                let k = choose|k: int| 0 <= k < archives(rest).len() && archives(rest)[k] == s;
                assert(all[k] == s);
            } else {
                assert(all[archives(rest).len() as int] == s);
            }
        }
    }
}

/// The list of packages is sorted, and holds the archives on the share and nothing else.
pub proof fn law_package_listing(names: Seq<Seq<char>>, s: Seq<char>)
    ensures
        ({
            let list = sorted(archives(names));
            &&& list.contains(s) <==> names.contains(s) && text::ends(s, ".tar.xz"@)
            &&& forall|a: int, b: int|
                0 <= a < b < list.len() ==> order::text_le(#[trigger] list[a], #[trigger] list[b])
        }),
{
    let found = archives(names);
    let list = sorted(found);
    let n = found.len();
    let le = order::by_text(found);
    let order = order::ordering(n, le);
    order::law_orders(found, Seq::empty());
    order::law_ordering(n, n, le);
    lemma_archives(names, s);
    assert forall|a: int, b: int| 0 <= a < b < list.len() implies order::text_le(
        #[trigger] list[a],
        #[trigger] list[b],
    ) by {
        assert(le(order[a], order[b]));
    }
    if list.contains(s) {
        let a = choose|a: int| 0 <= a < list.len() && list[a] == s;
        assert(0 <= order[a] < n);
        assert(found[order[a]] == s);
    }
    if found.contains(s) {
        let k = choose|k: int| 0 <= k < n && found[k] == s;
        assert(order.contains(k));
        let a = choose|a: int| 0 <= a < order.len() && order[a] == k;
        assert(list[a] == s);
    }
}

/// The orchestrator's address is the one that was given, else that of the environment, else this
/// machine's.
pub proof fn law_address(a: Seq<char>, b: Option<Seq<char>>)
    ensures
        address_of(Some(a), b) == a,
        address_of(None, Some(a)) == a,
        address_of(None, None) == "127.0.0.1:7734"@,
        ORCHESTRATOR_ENV@ == "SMECH_ORCHESTRATOR"@,
{
}

/// What a worker says of itself where the machine does not say it.
pub proof fn law_unknown_machine()
    ensures
        host_of(None) == "unknown"@,
        ip_of(None) == "0.0.0.0"@,
        cores_of(None) == 0,
{
    reveal_strlit("unknown");
    text::law_white('u');
    text::law_white('n');
    text::lemma_trim_line("unknown"@, Seq::empty());
    assert("unknown"@ + Seq::empty() =~= "unknown"@);
}

/// What a worker says of itself is what the machine says: its name without the line's end, its
/// address as it is.
pub proof fn law_known_machine(host: Seq<char>, ip: Seq<char>)
    requires
        host.len() > 0,
        !text::is_white(host[0]),
        !text::is_white(host.last()),
    ensures
        host_of(Some(host)) == host,
        host_of(Some(host + "\n"@)) == host,
        ip_of(Some(ip)) == ip,
{
    reveal_strlit("\n");
    text::law_white('\n');
    text::lemma_trim_line(host, Seq::empty());
    text::lemma_trim_line(host, "\n"@);
    assert(host + Seq::empty() =~= host);
}

proof fn lemma_beginning(a: Seq<Seq<char>>, b: Seq<Seq<char>>, p: Seq<char>)
    ensures
        beginning(a + b, p) == beginning(a, p) + beginning(b, p),
    decreases b.len(),
{
    if b.len() == 0 {
        assert(a + b =~= a);
    } else {
        lemma_beginning(a, b.drop_last(), p);
        assert((a + b).drop_last() =~= a + b.drop_last());
        assert((a + b).last() == b.last());
    }
}

/// Cores are counted by the lines of the machine's report that begin with `processor`: one more
/// such line in front is one more core, and any other line is none.
pub proof fn law_cores(line: Seq<char>, rest: Seq<char>)
    requires
        text::lacks(line, '\n'),
    ensures
        cores_of(Some(line + "\n"@ + rest)) == cores_of(Some(rest)) + (if text::begins(
            line,
            "processor"@,
        ) {
            1int
        } else {
            0
        }),
        cores_of(Some(line)) == if text::begins(line, "processor"@) {
            1int
        } else {
            0
        },
{
    reveal_strlit("\n");
    text::lemma_first_piece(line, "\n"@, rest);
    text::lemma_one_piece(line, "\n"@);
    let one = Seq::<Seq<char>>::empty().push(line);
    lemma_beginning(one, text::pieces(rest, "\n"@), "processor"@);
    assert(one.drop_last() =~= Seq::empty());
    assert(beginning(one.drop_last(), "processor"@) == 0);
}

/// A worker without a name makes one of its host's name and its process, and keeps it.
pub proof fn law_new_id(host: Seq<char>, pid: u32)
    ensures
        ({
            let id = "worker-"@ + host + "-"@ + text::int_text(pid as int);
            id_of(None, host, pid) == (
                id,
                StepView::stop().with(EffectView::MakeDir("/etc/smech-farm"@)).with(
                    EffectView::WriteText("/etc/smech-farm/worker-id"@, id),
                ),
            )
        }),
{
}

/// A heartbeat says of each thing what the machine says of it.
pub proof fn law_heartbeat_says(id: Seq<char>, m: MachineInfoView)
    ensures
        report_of(id, m) == payload::heartbeat(
            id,
            host_of(m.hostname),
            ip_of(m.address),
            cores_of(m.cpuinfo) as u32,
        ),
{
}

/// The sign that the orchestrator leaves for the workers is the one that they look for: it is told
/// and taken away.
pub proof fn law_ready_sign()
    ensures
        ready_flag() == "/srv/smech-farm/packages"@ + "/PACKAGES_READY"@,
        ready_step(false) == StepView::stop(),
        ready_step(true) == StepView::stop().report(
            "[smech-farm-worker] packages updated on NFS share\n"@,
        ).with(EffectView::Remove("/srv/smech-farm/packages"@ + "/PACKAGES_READY"@)),
{
}

/// The heartbeat runs on for ever: it says that it starts, and then again and again measures the
/// machine, sends what it found, looks for the sign and rests for fifteen seconds; a heartbeat that
/// did not get through is told, and stops nothing.
pub proof fn law_heartbeat_round(
    addr: Seq<char>,
    id: Seq<char>,
    m: MachineInfoView,
    h: Result<Seq<char>, Seq<char>>,
    found: bool,
)
    ensures
        ({
            let a = beat_step(addr, BeatStageView::Start, ReplyView::Begin);
            let b = beat_step(addr, a.0, ReplyView::Text(Some(id)));
            let c = beat_step(addr, b.0, ReplyView::Machine(m));
            let d = beat_step(addr, c.0, ReplyView::Http(h));
            let e = beat_step(addr, d.0, ReplyView::Found(found));
            &&& a.1 == StepView::stop().report(
                "[smech-farm-worker] starting heartbeat daemon \u{2192} "@ + addr + "\n"@,
            ).then_ask(QueryView::WorkerId)
            &&& b.1 == StepView::stop().then_ask(QueryView::Machine)
            &&& c.1 == StepView::stop().then_ask(
                QueryView::Post(addr, "/api/workers/heartbeat"@, report_of(id, m)),
            )
            &&& h is Ok ==> d.1 == StepView::stop().then_ask(QueryView::Exists(ready_flag()))
            &&& h matches Err(why) ==> d.1 == StepView::stop().report(
                "[smech-farm-worker] heartbeat failed: "@ + why + "\n"@,
            ).then_ask(QueryView::Exists(ready_flag()))
            &&& e.1 == ready_step(found).with(EffectView::Sleep(15)).then_ask(QueryView::Machine)
            &&& e.0 == b.0
        }),
{
}

/// A worker that asks for a package says so, sends the request under its own name, tells what was
/// answered, and then waits for the archive where the orchestrator puts it.
pub proof fn law_asking_for_a_package(
    addr: Seq<char>,
    package: Seq<char>,
    version: Option<Seq<char>>,
    id: Seq<char>,
    said: Seq<char>,
)
    ensures
        ({
            let dest = packages::package_path(package);
            let a = fetch_step(addr, package, version, FetchStage::Start, ReplyView::Begin);
            let b = fetch_step(addr, package, version, a.0, ReplyView::Text(Some(id)));
            let c = fetch_step(addr, package, version, b.0, ReplyView::Http(Ok(said)));
            let d = fetch_step(addr, package, version, b.0, ReplyView::Http(Err(said)));
            &&& a.1 == StepView::stop().then_ask(QueryView::WorkerId)
            &&& b.1 == StepView::stop().print(
                "[*] Requesting package '"@ + package + "' from orchestrator queue...\n"@,
            ).then_ask(
                QueryView::Post(
                    addr,
                    "/api/queue/add"@,
                    payload::package_request(package, version, id),
                ),
            )
            &&& c.1 == StepView::stop().print("[+] "@ + text::trimmed(said) + "\n"@).then_ask(
                QueryView::Exists(dest),
            )
            &&& d.1 == StepView::stop().report("[-] Failed: "@ + said + "\n"@).then_ask(
                QueryView::Exists(dest),
            )
            &&& c.0 == FetchStage::Waiting(0)
            &&& d.0 == FetchStage::Waiting(0)
        }),
{
}

/// A worker looks for the package at most twenty-four times, five seconds apart, counting aloud; it
/// ends where the package is there, or says that it has waited long enough.
pub proof fn law_waiting(addr: Seq<char>, package: Seq<char>, version: Option<Seq<char>>, i: u32)
    requires
        i < 24,
    ensures
        ({
            let dest = packages::package_path(package);
            let yes = fetch_step(
                addr,
                package,
                version,
                FetchStage::Waiting(i),
                ReplyView::Found(true),
            );
            let no = fetch_step(
                addr,
                package,
                version,
                FetchStage::Waiting(i),
                ReplyView::Found(false),
            );
            let counted = StepView::stop().print(
                "    waiting... ("@ + text::int_text(i + 1) + "/24)\n"@,
            ).with(EffectView::Sleep(5));
            &&& yes == (
                FetchStage::Done,
                StepView::stop().print("[+] Package available at: "@ + dest + "\n"@),
            )
            &&& i < 23 ==> no == (
                FetchStage::Waiting((i + 1) as u32),
                counted.then_ask(QueryView::Exists(dest)),
            )
            &&& i == 23 ==> no == (
                FetchStage::Done,
                counted.report("[-] Timed out waiting for package.\n"@),
            )
        }),
{
}

/// What is said of a package that was looked for.
pub proof fn law_check(package: Seq<char>)
    ensures
        check_text(package, true) == "[+] "@ + package + " \u{2014} available at "@
            + packages::package_path(package) + "\n"@,
        check_text(package, false) == "[-] "@ + package + " \u{2014} not found on NFS share\n"@,
{
}

/// What a worker shows of itself, line by line, and then of the tunnel, where it has one, and of the
/// farm.
pub proof fn law_status_run(
    addr: Seq<char>,
    id: Seq<char>,
    m: MachineInfoView,
    tunnel: Seq<char>,
    said: Seq<char>,
)
    ensures
        ({
            let a = status_step(addr, StatusStage::Start, ReplyView::Begin);
            let b = status_step(addr, a.0, ReplyView::Text(Some(id)));
            let c = status_step(addr, b.0, ReplyView::Machine(m));
            let d = status_step(addr, c.0, ReplyView::Found(true));
            let e = status_step(addr, d.0, ReplyView::Text(Some(tunnel)));
            let f = status_step(addr, e.0, ReplyView::Http(Ok(said)));
            let g = status_step(addr, e.0, ReplyView::Http(Err(said)));
            let without = status_step(addr, c.0, ReplyView::Found(false));
            &&& a.1 == StepView::stop().then_ask(QueryView::WorkerId)
            &&& b.1 == StepView::stop().print("  Worker ID    : "@ + id + "\n"@).then_ask(
                QueryView::Machine,
            )
            &&& c.1 == StepView::stop().print(
                "  Hostname     : "@ + host_of(m.hostname) + "\n  IP           : "@ + ip_of(m.address)
                    + "\n  Cores        : "@ + text::int_text((cores_of(m.cpuinfo) as u32) as int)
                    + "\n  NFS share    : "@ + "/srv/smech-farm/packages"@
                    + "\n  Orchestrator : "@ + addr + "\n"@,
            ).then_ask(QueryView::Exists("/etc/smech-farm/wg-orchestrator"@))
            &&& d.1 == StepView::stop().then_ask(
                QueryView::ReadText("/etc/smech-farm/wg-orchestrator"@),
            )
            &&& e.1 == StepView::stop().print(
                "  WireGuard    : active ("@ + text::trimmed(tunnel) + ")\n"@,
            ).then_ask(QueryView::Get(addr, "/api/status"@))
            &&& without.1 == StepView::stop().then_ask(QueryView::Get(addr, "/api/status"@))
            &&& without.0 == e.0
            &&& f == (
                StatusStage::Done,
                StepView::stop().print("  Farm status  : "@ + text::trimmed(said) + "\n"@),
            )
            &&& g == (
                StatusStage::Done,
                StepView::stop().print("  Farm status  : unreachable ("@ + said + ")\n"@),
            )
        }),
{
}

/// What is said of the archives on the share: that there is no share, that there are none, or how
/// many there are and, line by line, which.
pub proof fn law_list_texts(names: Seq<Seq<char>>, list: Seq<Seq<char>>, s: Seq<char>)
    ensures
        list_text(None) == "[-] NFS share not mounted at "@ + "/srv/smech-farm/packages"@ + "\n"@,
        archives(names).len() == 0 ==> list_text(Some(names))
            == "  No packages on NFS share yet.\n"@,
        archives(names).len() > 0 ==> list_text(Some(names)) == "  Packages on NFS share ("@
            + text::int_text(archives(names).len() as int) + "):\n"@ + indented(
            sorted(archives(names)),
        ),
        indented(Seq::empty()).len() == 0,
        indented(list.push(s)) == indented(list) + "    "@ + s + "\n"@,
        archives(Seq::empty()).len() == 0,
        archives(names.push(s)) == if text::ends(s, ".tar.xz"@) {
            archives(names).push(s)
        } else {
            archives(names)
        },
{
    assert(list.push(s).drop_last() =~= list);
    assert(names.push(s).drop_last() =~= names);
    let l = archives(names);
    order::law_orders(l, Seq::empty());
    order::law_ordering(l.len(), l.len(), order::by_text(l));
    assert(sorted(l).len() == l.len());
}

/// What a worker shows of its end of the tunnel.
pub proof fn law_tunnel_status_run(iface: Seq<char>, key: Seq<char>, at: Seq<char>)
    ensures
        ({
            let conf = "/etc/wireguard/"@ + iface + ".conf"@;
            let public = "/etc/smech-farm/worker-wg.pub"@;
            let peer = "/etc/smech-farm/wg-orchestrator"@;
            let a = wg_status_step(iface, WgStatusStage::Start, ReplyView::Begin);
            let b = wg_status_step(iface, a.0, ReplyView::Found(true));
            let c = wg_status_step(iface, b.0, ReplyView::Found(true));
            let d = wg_status_step(iface, c.0, ReplyView::Text(Some(key)));
            let e = wg_status_step(iface, d.0, ReplyView::Text(Some(at)));
            let no_conf = wg_status_step(iface, a.0, ReplyView::Found(false));
            let no_key = wg_status_step(iface, b.0, ReplyView::Found(false));
            let no_peer = wg_status_step(iface, d.0, ReplyView::Text(None));
            let show = work::command("wg"@).push("show"@).push(iface);
            &&& conf_path(iface) == conf
            &&& a.1 == StepView::stop().print("[*] WireGuard interface: "@ + iface + "\n"@).then_ask(
                QueryView::Exists(conf),
            )
            &&& b.1 == StepView::stop().print("[+] Config: "@ + conf + "\n"@).then_ask(
                QueryView::Exists(public),
            )
            &&& no_conf == (b.0, StepView::stop().then_ask(QueryView::Exists(public)))
            &&& c.1 == StepView::stop().then_ask(QueryView::ReadText(public))
            &&& d.1 == StepView::stop().print(
                "[+] Worker public key: "@ + text::trimmed(key) + "\n"@,
            ).then_ask(QueryView::ReadText(peer))
            &&& no_key == (d.0, StepView::stop().then_ask(QueryView::ReadText(peer)))
            &&& e == (
                WgStatusStage::Done,
                StepView::stop().print(
                    "[+] WireGuard orchestrator: "@ + text::trimmed(at) + "\n"@,
                ).exec(show),
            )
            &&& no_peer == (WgStatusStage::Done, StepView::stop().exec(show))
        }),
{
}

/// A text that is not there is an empty one.
pub proof fn law_or_empty(s: Seq<char>)
    ensures
        or_empty(Some(s)) == s,
        or_empty(None).len() == 0,
{
}

/// A heartbeat waits for what it asked for.
pub proof fn law_heartbeat_waits(addr: Seq<char>, stage: BeatStageView, reply: ReplyView)
    ensures
        stage is Naming && !(reply is Text && reply->Text_0 is Some) ==> beat_step(addr, stage, reply) == (stage, StepView::stop()),
        stage is Measuring && !(reply is Machine) ==> beat_step(addr, stage, reply) == (stage, StepView::stop()),
        stage is Sending && !(reply is Http) ==> beat_step(addr, stage, reply) == (stage, StepView::stop()),
        stage is Checking && !(reply is Found) ==> beat_step(addr, stage, reply) == (stage, StepView::stop()),
{
}

/// A request for a package waits for what it asked for, and ends once.
pub proof fn law_request_waits(
    addr: Seq<char>,
    package: Seq<char>,
    version: Option<Seq<char>>,
    stage: FetchStage,
    reply: ReplyView,
)
    ensures
        stage is Naming && !(reply is Text && reply->Text_0 is Some) ==> fetch_step(addr, package, version, stage, reply) == (stage, StepView::stop()),
        stage is Asking && !(reply is Http) ==> fetch_step(addr, package, version, stage, reply) == (stage, StepView::stop()),
        stage is Waiting && !(reply is Found) ==> fetch_step(addr, package, version, stage, reply) == (stage, StepView::stop()),
        stage is Done ==> fetch_step(addr, package, version, stage, reply) == (stage, StepView::stop()),
{
}

/// What a worker shows of itself waits for what it asked for, and ends once.
pub proof fn law_status_waits(addr: Seq<char>, stage: StatusStage, reply: ReplyView)
    ensures
        stage is Naming && !(reply is Text && reply->Text_0 is Some) ==> status_step(addr, stage, reply) == (stage, StepView::stop()),
        stage is Measuring && !(reply is Machine) ==> status_step(addr, stage, reply) == (stage, StepView::stop()),
        stage is Looking && !(reply is Found) ==> status_step(addr, stage, reply) == (stage, StepView::stop()),
        stage is Reading && !(reply is Text) ==> status_step(addr, stage, reply) == (stage, StepView::stop()),
        stage is Asking && !(reply is Http) ==> status_step(addr, stage, reply) == (stage, StepView::stop()),
        stage is Done ==> status_step(addr, stage, reply) == (stage, StepView::stop()),
{
}

/// What a worker shows of the tunnel waits for what it asked for, and ends once.
pub proof fn law_tunnel_status_waits(iface: Seq<char>, stage: WgStatusStage, reply: ReplyView)
    ensures
        stage is Config && !(reply is Found) ==> wg_status_step(iface, stage, reply) == (stage, StepView::stop()),
        stage is Key && !(reply is Found) ==> wg_status_step(iface, stage, reply) == (stage, StepView::stop()),
        stage is ReadKey && !(reply is Text) ==> wg_status_step(iface, stage, reply) == (stage, StepView::stop()),
        stage is Address && !(reply is Text) ==> wg_status_step(iface, stage, reply) == (stage, StepView::stop()),
        stage is Done ==> wg_status_step(iface, stage, reply) == (stage, StepView::stop()),
{
}

} // verus!
