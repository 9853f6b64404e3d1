//! How a worker joins the tunnel.

use vstd::prelude::*;

use crate::api;
use crate::config::WireGuardConfigView;
use crate::paths;
use crate::records;
use crate::records::{WgRegisterResp, WgRegisterRespView};
use crate::text;
use crate::text::{contains, head, number, split};
use crate::work;
use crate::work::{
    Cmd, Effect, EffectView, OutputView, Query, QueryView, Reply, ReplyView, Step, StepView,
};
use crate::worker;
use crate::worker::{
    conf_file, hostname, trimmed_or_empty, WG_ADDR_PATH, WG_KEY_PATH, WG_PUB_PATH,
};

verus! {

/// The server's address in the tunnel, given the network that the worker may reach through it: the
/// first address there.
pub open spec fn host_in(allowed: Seq<char>) -> Seq<char> {
    let p = text::pieces(text::before(allowed, "/"@), "."@);
    if p.len() == 4 {
        p[0] + "."@ + p[1] + "."@ + p[2] + ".1"@
    } else {
        "10.99.0.1"@
    }
}

/// The server's address in the tunnel, given the network that the worker may reach through it.
pub fn wg_host(allowed: &str) -> (r: String)
    ensures
        r@ == host_in(allowed@),
{
    proof {
        reveal_strlit(".");
    }
    let p = split(head(allowed, "/"), ".");
    assert(p@.len() == p.deep_view().len());
    if p.len() == 4 {
        p[0].to_string().concat(".").concat(p[1]).concat(".").concat(p[2]).concat(".1")
    } else {
        "10.99.0.1".to_string()
    }
}

/// The port in an address: what follows its last colon, and all of it where it has none.
pub open spec fn port_in(addr: Seq<char>) -> Seq<char> {
    text::pieces(addr, ":"@).last()
}

/// The port in an address.
pub fn port_of(addr: &str) -> (r: String)
    ensures
        r@ == port_in(addr@),
{
    proof {
        reveal_strlit(":");
        text::lemma_pieces_some(addr@, ":"@);
    }
    let p = split(addr, ":");
    assert(p@.len() == p.deep_view().len());
    let n = p.len();
    p[n - 1].to_string()
}

/// The configuration of a worker's tunnel.
pub open spec fn tunnel_config(reg: WgRegisterRespView, private: Seq<char>) -> Seq<char> {
    "[Interface]\nAddress = "@ + reg.assigned_ip + "/32\nPrivateKey = "@ + private
        + "\n\n[Peer]\nPublicKey = "@ + reg.server_public_key + "\nEndpoint = "@
        + reg.server_endpoint + "\nAllowedIPs = "@ + reg.allowed_ips
        + "\nPersistentKeepalive = "@ + text::nat_text(reg.keepalive as nat) + "\n"@
}

/// The configuration of a worker's tunnel.
pub fn tunnel_conf(reg: &WgRegisterResp, private: &str) -> (r: String)
    ensures
        r@ == tunnel_config(reg@, private@),
{
    "[Interface]\nAddress = ".to_string().concat(reg.assigned_ip.as_str()).concat(
        "/32\nPrivateKey = ",
    ).concat(private).concat("\n\n[Peer]\nPublicKey = ").concat(
        reg.server_public_key.as_str(),
    ).concat("\nEndpoint = ").concat(reg.server_endpoint.as_str()).concat(
        "\nAllowedIPs = ",
    ).concat(reg.allowed_ips.as_str()).concat("\nPersistentKeepalive = ").concat(
        number(reg.keepalive as u64).as_str(),
    ).concat("\n")
}

/// What joining the tunnel waits for.
#[derive(Debug, PartialEq, Eq)]
pub enum JoinStage {
    Start,
    /// The orchestrator was asked whether it has a tunnel.
    Info,
    /// The private key is looked for.
    Looking,
    /// A private key is being made.
    Making,
    /// The public key is being derived from it.
    Deriving,
    /// The public key is being read.
    ReadPublic,
    /// The private key is being read.
    ReadPrivate { public: String },
    /// The host name is being read.
    Naming { public: String, private: String },
    /// The orchestrator was asked to let the worker in.
    Registering { private: String },
    /// Its answer is being read.
    Parsing { private: String, answer: String },
    /// The configuration is being written.
    Writing { reg: WgRegisterResp },
    /// The interface is being brought up.
    Raising { reg: WgRegisterResp },
    Done,
}

pub enum JoinStageView {
    Start,
    Info,
    Looking,
    Making,
    Deriving,
    ReadPublic,
    ReadPrivate { public: Seq<char> },
    Naming { public: Seq<char>, private: Seq<char> },
    Registering { private: Seq<char> },
    Parsing { private: Seq<char>, answer: Seq<char> },
    Writing { reg: WgRegisterRespView },
    Raising { reg: WgRegisterRespView },
    Done,
}

impl View for JoinStage {
    type V = JoinStageView;

    open spec fn view(&self) -> JoinStageView {
        match self {
            JoinStage::Start => JoinStageView::Start,
            JoinStage::Info => JoinStageView::Info,
            JoinStage::Looking => JoinStageView::Looking,
            JoinStage::Making => JoinStageView::Making,
            JoinStage::Deriving => JoinStageView::Deriving,
            JoinStage::ReadPublic => JoinStageView::ReadPublic,
            JoinStage::ReadPrivate { public } => JoinStageView::ReadPrivate { public: public@ },
            JoinStage::Naming { public, private } => JoinStageView::Naming {
                public: public@,
                private: private@,
            },
            JoinStage::Registering { private } => JoinStageView::Registering { private: private@ },
            JoinStage::Parsing { private, answer } => JoinStageView::Parsing {
                private: private@,
                answer: answer@,
            },
            JoinStage::Writing { reg } => JoinStageView::Writing { reg: reg@ },
            JoinStage::Raising { reg } => JoinStageView::Raising { reg: reg@ },
            JoinStage::Done => JoinStageView::Done,
        }
    }
}

/// The body that asks for the worker `name` with the key `key` to be let in.
pub open spec fn join_body(name: Seq<char>, key: Seq<char>) -> Seq<char> {
    "{\"name\":\""@ + name + "\",\"public_key\":\""@ + key + "\"}"@
}

/// Asks for the worker `name` to be let in.
pub open spec fn enrol(addr: Seq<char>, name: Seq<char>, public: Seq<char>, private: Seq<char>) -> (
    JoinStageView,
    StepView,
) {
    (
        JoinStageView::Registering { private },
        StepView::stop().print("[*] Registering as '"@ + name + "'...\n"@).then_ask(
            QueryView::Post(addr, "/api/wg/register-worker"@, join_body(name, public)),
        ),
    )
}

/// The end of joining, for a reason.
pub open spec fn give_up(why: Seq<char>) -> (JoinStageView, StepView) {
    (JoinStageView::Done, StepView::stop().report(why))
}

/// What is said where there is no `wg`.
pub const NO_TOOLS: &'static str = r#"[-] wg binary not found. Install wireguard-tools first:
    apt install wireguard-tools   (Debian/Ubuntu)
    dnf install wireguard-tools   (Fedora/RHEL)
"#;

/// What is said where the orchestrator has no tunnel.
pub const NO_TUNNEL: &'static str = r#"[-] WireGuard is not enabled on this orchestrator.
    Set wireguard.enabled = true in smech-farm.toml on the orchestrator.
"#;

/// What is said at the end, with the orchestrator's new address.
pub open spec fn farewell(at: Seq<char>) -> Seq<char> {
    "\n[+] WireGuard setup complete!\n    Set SMECH_ORCHESTRATOR="@ + at
        + " in your environment\n    or pass --orchestrator "@ + at
        + " to worker commands\n\n    To start the worker daemon via WireGuard:\n    smech-farm-worker daemon --orchestrator "@
        + at + "\n"@
}

/// The orchestrator's address in the tunnel.
pub open spec fn tunnel_addr(reg: WgRegisterRespView, addr: Seq<char>) -> Seq<char> {
    host_in(reg.allowed_ips) + ":"@ + port_in(addr)
}

/// How joining the tunnel goes on.
pub open spec fn join_step(
    addr: Seq<char>,
    name: Option<Seq<char>>,
    iface: Seq<char>,
    stage: JoinStageView,
    reply: ReplyView,
) -> (JoinStageView, StepView) {
    match (stage, reply) {
        (JoinStageView::Start, _) => (
            JoinStageView::Info,
            StepView::stop().print(
                "[*] SmechFarm WireGuard setup\n[*] Orchestrator: "@ + addr + "\n"@,
            ).then_ask(QueryView::Get(addr, "/api/wg/server-info"@)),
        ),
        (JoinStageView::Info, ReplyView::Http(h)) => match h {
            Err(e) => give_up("[-] Cannot reach orchestrator: "@ + e + "\n"@),
            Ok(r) => if text::includes(r, "not enabled"@) {
                give_up(NO_TUNNEL@)
            } else {
                (
                    JoinStageView::Looking,
                    StepView::stop().with(EffectView::MakeDir("/etc/smech-farm"@)).with(
                        EffectView::MakeDir("/etc/wireguard"@),
                    ).then_ask(QueryView::Exists(WG_KEY_PATH@)),
                )
            },
        },
        (JoinStageView::Looking, ReplyView::Found(b)) => if b {
            (
                JoinStageView::ReadPublic,
                StepView::stop().then_ask(QueryView::ReadText(WG_PUB_PATH@)),
            )
        } else {
            (
                JoinStageView::Making,
                StepView::stop().then_ask(
                    QueryView::Capture(work::command("wg"@).push("genkey"@)),
                ),
            )
        },
        (JoinStageView::Making, ReplyView::Output(o)) => match o {
            Some(out) => if out.success {
                (
                    JoinStageView::Deriving,
                    StepView::stop().with(
                        EffectView::WriteBytes(WG_KEY_PATH@, out.stdout),
                    ).then_ask(
                        QueryView::CaptureFrom(
                            work::command("wg"@).push("pubkey"@),
                            WG_KEY_PATH@,
                        ),
                    ),
                )
            } else {
                give_up(NO_TOOLS@)
            },
            None => give_up(NO_TOOLS@),
        },
        (JoinStageView::Deriving, ReplyView::Output(o)) => (
            JoinStageView::ReadPublic,
            (match o {
                Some(out) => StepView::stop().with(
                    EffectView::WriteBytes(WG_PUB_PATH@, out.stdout),
                ),
                None => StepView::stop(),
            }).print("[+] Generated WireGuard key pair\n"@).then_ask(
                QueryView::ReadText(WG_PUB_PATH@),
            ),
        ),
        (JoinStageView::ReadPublic, ReplyView::Text(t)) => (
            JoinStageView::ReadPrivate { public: text::trimmed(worker::or_empty(t)) },
            StepView::stop().then_ask(QueryView::ReadText(WG_KEY_PATH@)),
        ),
        (JoinStageView::ReadPrivate { public }, ReplyView::Text(t)) => match name {
            Some(n) => enrol(addr, n, public, text::trimmed(worker::or_empty(t))),
            None => (
                JoinStageView::Naming { public, private: text::trimmed(worker::or_empty(t)) },
                StepView::stop().then_ask(QueryView::ReadText("/etc/hostname"@)),
            ),
        },
        (JoinStageView::Naming { public, private }, ReplyView::Text(t)) => enrol(
            addr,
            worker::host_of(t),
            public,
            private,
        ),
        (JoinStageView::Registering { private }, ReplyView::Http(h)) => match h {
            Err(e) => give_up("[-] Registration failed: "@ + e + "\n"@),
            Ok(r) => (
                JoinStageView::Parsing { private, answer: r },
                StepView::stop().then_ask(QueryView::Registration(r)),
            ),
        },
        (JoinStageView::Parsing { private, answer }, ReplyView::Registration(w)) => match w {
            None => give_up("[-] Unexpected response: "@ + answer + "\n"@),
            Some(reg) => (
                JoinStageView::Writing { reg },
                StepView::stop().print(
                    "[+] Assigned WireGuard IP: "@ + reg.assigned_ip + "\n"@,
                ).then_ask(QueryView::Write(worker::conf_path(iface), tunnel_config(reg, private))),
            ),
        },
        (JoinStageView::Writing { reg }, ReplyView::Written(w)) => match w {
            Err(e) => give_up(
                "[-] Cannot write WireGuard config to "@ + worker::conf_path(iface) + ": "@ + e
                    + "\n    Try running as root.\n"@,
            ),
            Ok(_) => (
                JoinStageView::Raising { reg },
                StepView::stop().exec(
                    work::command("chmod"@).push("600"@).push(worker::conf_path(iface)),
                ).then_ask(
                    QueryView::Run(work::command("wg-quick"@).push("up"@).push(worker::conf_path(iface))),
                ),
            ),
        },
        (JoinStageView::Raising { reg }, ReplyView::Status(s)) => (
            JoinStageView::Done,
            (if s == Some(true) {
                StepView::stop().print("[+] WireGuard interface "@ + iface + " is up\n"@)
            } else {
                StepView::stop().report(
                    "[!] wg-quick up failed \u{2014} you may need to run this as root, or bring\n    up the interface manually: wg-quick up "@
                        + worker::conf_path(iface) + "\n"@,
                )
            }).print(farewell(tunnel_addr(reg, addr))).with(
                EffectView::WriteText(WG_ADDR_PATH@, tunnel_addr(reg, addr)),
            ),
        ),
        (s, _) => (s, StepView::stop()),
    }
}

fn stop_with(why: String) -> (r: (JoinStage, Step))
    ensures
        (r.0@, r.1@) == give_up(why@),
{
    (JoinStage::Done, Step::stop().report(why))
}

fn register(addr: &str, name: &str, public: &str, private: String) -> (r: (JoinStage, Step))
    ensures
        (r.0@, r.1@) == enrol(addr@, name@, public@, private@),
{
    let body = "{\"name\":\"".to_string().concat(name).concat("\",\"public_key\":\"").concat(
        public,
    ).concat("\"}");
    let line = "[*] Registering as '".to_string().concat(name).concat("'...\n");
    (
        JoinStage::Registering { private },
        Step::stop().print(line).then_ask(
            Query::Post(addr.to_string(), "/api/wg/register-worker".to_string(), body),
        ),
    )
}

fn finish(addr: &str, iface: &str, reg: &WgRegisterResp, up: bool) -> (r: Step)
    ensures
        (JoinStageView::Done, r@) == join_step(
            addr@,
            None,
            iface@,
            JoinStageView::Raising { reg: reg@ },
            ReplyView::Status(Some(up)),
        ),
{
    let at = wg_host(reg.allowed_ips.as_str()).concat(":").concat(port_of(addr).as_str());
    let step = if up {
        Step::stop().print(
            "[+] WireGuard interface ".to_string().concat(iface).concat(" is up\n"),
        )
    } else {
        Step::stop().report(
            "[!] wg-quick up failed \u{2014} you may need to run this as root, or bring\n    up the interface manually: wg-quick up ".to_string().concat(
                conf_file(iface).as_str(),
            ).concat("\n"),
        )
    };
    let bye = "\n[+] WireGuard setup complete!\n    Set SMECH_ORCHESTRATOR=".to_string().concat(
        at.as_str(),
    ).concat(" in your environment\n    or pass --orchestrator ").concat(at.as_str()).concat(
        " to worker commands\n\n    To start the worker daemon via WireGuard:\n    smech-farm-worker daemon --orchestrator ",
    ).concat(at.as_str()).concat("\n");
    step.print(bye).with(Effect::WriteText(WG_ADDR_PATH.to_string(), at))
}

/// How joining the tunnel goes on: a key pair is made where there is none, the orchestrator is asked
/// to let the worker in, the configuration is written, and the interface is brought up.
pub fn cmd_wg_setup(
    addr: &str,
    name: &Option<String>,
    iface: &str,
    stage: JoinStage,
    reply: Reply,
) -> (r: (JoinStage, Step))
    ensures
        (r.0@, r.1@) == join_step(addr@, records::opt_text(*name), iface@, stage@, reply@),
{
    match (stage, reply) {
        (JoinStage::Start, _) => (
            JoinStage::Info,
            Step::stop().print(
                "[*] SmechFarm WireGuard setup\n[*] Orchestrator: ".to_string().concat(
                    addr,
                ).concat("\n"),
            ).then_ask(Query::Get(addr.to_string(), "/api/wg/server-info".to_string())),
        ),
        (JoinStage::Info, Reply::Http(h)) => match h {
            Err(e) => stop_with(
                "[-] Cannot reach orchestrator: ".to_string().concat(e.as_str()).concat("\n"),
            ),
            Ok(r) => {
                if contains(r.as_str(), "not enabled") {
                    stop_with(NO_TUNNEL.to_string())
                } else {
                    (
                        JoinStage::Looking,
                        Step::stop().with(Effect::MakeDir("/etc/smech-farm".to_string())).with(
                            Effect::MakeDir("/etc/wireguard".to_string()),
                        ).then_ask(Query::Exists(WG_KEY_PATH.to_string())),
                    )
                }
            },
        },
        (JoinStage::Looking, Reply::Found(b)) => {
            if b {
                (
                    JoinStage::ReadPublic,
                    Step::stop().then_ask(Query::ReadText(WG_PUB_PATH.to_string())),
                )
            } else {
                (
                    JoinStage::Making,
                    Step::stop().then_ask(Query::Capture(Cmd::new("wg").arg("genkey"))),
                )
            }
        },
        (JoinStage::Making, Reply::Output(o)) => match o {
            Some(out) => {
                if out.success {
                    (
                        JoinStage::Deriving,
                        Step::stop().with(
                            Effect::WriteBytes(WG_KEY_PATH.to_string(), out.stdout),
                        ).then_ask(
                            Query::CaptureFrom(
                                Cmd::new("wg").arg("pubkey"),
                                WG_KEY_PATH.to_string(),
                            ),
                        ),
                    )
                } else {
                    stop_with(NO_TOOLS.to_string())
                }
            },
            None => stop_with(NO_TOOLS.to_string()),
        },
        (JoinStage::Deriving, Reply::Output(o)) => {
            let step = match o {
                Some(out) => Step::stop().with(
                    Effect::WriteBytes(WG_PUB_PATH.to_string(), out.stdout),
                ),
                None => Step::stop(),
            };
            (
                JoinStage::ReadPublic,
                step.print("[+] Generated WireGuard key pair\n".to_string()).then_ask(
                    Query::ReadText(WG_PUB_PATH.to_string()),
                ),
            )
        },
        (JoinStage::ReadPublic, Reply::Text(t)) => (
            JoinStage::ReadPrivate { public: trimmed_or_empty(&t) },
            Step::stop().then_ask(Query::ReadText(WG_KEY_PATH.to_string())),
        ),
        (JoinStage::ReadPrivate { public }, Reply::Text(t)) => match name {
            Some(n) => register(addr, n.as_str(), public.as_str(), trimmed_or_empty(&t)),
            None => (
                JoinStage::Naming { public, private: trimmed_or_empty(&t) },
                Step::stop().then_ask(Query::ReadText("/etc/hostname".to_string())),
            ),
        },
        (JoinStage::Naming { public, private }, Reply::Text(t)) => register(
            addr,
            hostname(&t).as_str(),
            public.as_str(),
            private,
        ),
        (JoinStage::Registering { private }, Reply::Http(h)) => match h {
            Err(e) => stop_with(
                "[-] Registration failed: ".to_string().concat(e.as_str()).concat("\n"),
            ),
            Ok(r) => {
                let text = r.as_str().to_string();
                (
                    JoinStage::Parsing { private, answer: r },
                    Step::stop().then_ask(Query::Registration(text)),
                )
            },
        },
        (JoinStage::Parsing { private, answer }, Reply::Registration(w)) => match w {
            None => stop_with(
                "[-] Unexpected response: ".to_string().concat(answer.as_str()).concat("\n"),
            ),
            Some(reg) => {
                let line = "[+] Assigned WireGuard IP: ".to_string().concat(
                    reg.assigned_ip.as_str(),
                ).concat("\n");
                let conf = tunnel_conf(&reg, private.as_str());
                (
                    JoinStage::Writing { reg },
                    Step::stop().print(line).then_ask(
                        Query::Write(conf_file(iface), conf),
                    ),
                )
            },
        },
        (JoinStage::Writing { reg }, Reply::Written(w)) => match w {
            Err(e) => stop_with(
                "[-] Cannot write WireGuard config to ".to_string().concat(
                    conf_file(iface).as_str(),
                ).concat(
                    ": ",
                ).concat(e.as_str()).concat("\n    Try running as root.\n"),
            ),
            Ok(_) => (
                JoinStage::Raising { reg },
                Step::stop().exec(Cmd::new("chmod").arg("600").arg(conf_file(iface).as_str())).then_ask(
                    Query::Run(Cmd::new("wg-quick").arg("up").arg(conf_file(iface).as_str())),
                ),
            ),
        },
        (JoinStage::Raising { reg }, Reply::Status(s)) => {
            let up = match s {
                Some(b) => b,
                None => false,
            };
            (JoinStage::Done, finish(addr, iface, &reg, up))
        },
        (s, _) => (s, Step::stop()),
    }
}

/// A worker finds the server: with the network that the orchestrator answers, it looks for it under
/// the first address of the server's own network.
pub proof fn law_worker_finds_server(wg: WireGuardConfigView)
    requires
        text::pieces(api::server_ip(wg), "."@).len() == 4,
    ensures
        ({
            let p = text::pieces(api::server_ip(wg), "."@);
            host_in(api::net_of(api::server_ip(wg))) == p[0] + "."@ + p[1] + "."@ + p[2] + ".1"@
        }),
{
    reveal_strlit(".");
    reveal_strlit("/");
    reveal_strlit("0");
    reveal_strlit(".0/24");
    reveal_strlit("/24");
    let ip = api::server_ip(wg);
    let dot = "."@;
    let p = text::pieces(ip, dot);
    text::lemma_before_lacks(wg.server_wg_ip, "/"@);
    text::lemma_pieces_lack(ip, dot, ip.len() + 2, 0, '.');
    text::lemma_pieces_lack(ip, dot, ip.len() + 2, 0, '/');
    assert(text::lacks(p[0], '.') && text::lacks(p[1], '.') && text::lacks(p[2], '.'));
    assert(text::lacks(p[0], '/') && text::lacks(p[1], '/') && text::lacks(p[2], '/'));
    let zero = "0"@;
    let net = p[0] + dot + p[1] + dot + p[2] + dot + zero;
    let whole = api::net_of(ip);
    assert(whole =~= net + "/24"@);
    // What is before the slash.
    assert(text::before(whole, "/"@) =~= net) by {
        text::lemma_find_from(whole, "/"@, 0);
        let n = net.len() as int;
        text::lemma_single(whole, "/"@, n);
        assert(whole[n] == '/');
        if text::find(whole, "/"@) is Some {
            let i = text::find(whole, "/"@)->0;
            text::lemma_single(whole, "/"@, i);
            if i < n {
                assert(net[i] == '/');
                let a = p[0].len() as int;
                let b = a + 1 + p[1].len();
                let c = b + 1 + p[2].len();
                if i < a {
                    assert(net[i] == p[0][i]);
                } else if a < i < b {
                    assert(net[i] == p[1][i - a - 1]);
                } else if b < i < c {
                    assert(net[i] == p[2][i - b - 1]);
                }
            }
        }
    }
    // Its parts.
    let r1 = p[1] + dot + p[2] + dot + zero;
    let r2 = p[2] + dot + zero;
    assert(net =~= p[0] + dot + r1);
    assert(r1 =~= p[1] + dot + r2);
    text::lemma_first_piece(p[0], dot, r1);
    text::lemma_first_piece(p[1], dot, r2);
    text::lemma_first_piece(p[2], dot, zero);
    text::lemma_one_piece(zero, dot);
    let q = text::pieces(net, dot);
    assert(q.len() == 4);
    assert(q[0] == p[0] && q[1] == p[1] && q[2] == p[2]);
}

/// The private key is never sent: what the orchestrator is asked does not depend on it.
pub proof fn law_private_key_is_not_sent(
    addr: Seq<char>,
    name: Option<Seq<char>>,
    iface: Seq<char>,
    public: Seq<char>,
    a: Option<Seq<char>>,
    b: Option<Seq<char>>,
    host: Option<Seq<char>>,
)
    ensures
        ({
            let x = join_step(
                addr,
                name,
                iface,
                JoinStageView::ReadPrivate { public },
                ReplyView::Text(a),
            );
            let y = join_step(
                addr,
                name,
                iface,
                JoinStageView::ReadPrivate { public },
                ReplyView::Text(b),
            );
            &&& x.1 == y.1
            &&& name is None ==> join_step(addr, name, iface, x.0, ReplyView::Text(host)).1
                == join_step(addr, name, iface, y.0, ReplyView::Text(host)).1
        }),
{
}

/// Nothing is changed on a machine whose orchestrator has no tunnel, or cannot be reached.
pub proof fn law_no_tunnel_no_change(
    addr: Seq<char>,
    name: Option<Seq<char>>,
    iface: Seq<char>,
    h: Result<Seq<char>, Seq<char>>,
)
    requires
        h matches Ok(r) ==> text::includes(r, "not enabled"@),
    ensures
        ({
            let x = join_step(addr, name, iface, JoinStageView::Info, ReplyView::Http(h));
            &&& x.0 is Done
            &&& x.1.ask is None
            &&& x.1.effects.len() == 1
            &&& x.1.effects[0] is Report
        }),
{
}

/// What the orchestrator answers while it has no tunnel is taken for just that.
pub proof fn law_refusal_is_understood(wg: WireGuardConfigView, file: Option<Seq<char>>)
    requires
        !wg.enabled,
    ensures
        text::includes(api::server_info(wg, file).1, "not enabled"@),
{
    reveal_strlit("{\"error\":\"WireGuard not enabled\"}");
    reveal_strlit("not enabled");
    let t = api::tunnel_off().1;
    assert(t.subrange(20, 31) =~= "not enabled"@);
    assert(text::occurs_at(t, "not enabled"@, 20));
}

/// How many answers joining can still need.
pub open spec fn rank(s: JoinStageView) -> nat {
    match s {
        JoinStageView::Start => 12,
        JoinStageView::Info => 11,
        JoinStageView::Looking => 10,
        JoinStageView::Making => 9,
        JoinStageView::Deriving => 8,
        JoinStageView::ReadPublic => 7,
        JoinStageView::ReadPrivate { .. } => 6,
        JoinStageView::Naming { .. } => 5,
        JoinStageView::Registering { .. } => 4,
        JoinStageView::Parsing { .. } => 3,
        JoinStageView::Writing { .. } => 2,
        JoinStageView::Raising { .. } => 1,
        JoinStageView::Done => 0,
    }
}

/// Joining comes to an end: every step leads nearer to it, and asks something unless it is there.
pub proof fn law_joining_ends(
    addr: Seq<char>,
    name: Option<Seq<char>>,
    iface: Seq<char>,
    stage: JoinStageView,
    reply: ReplyView,
    next: ReplyView,
)
    requires
        rank(join_step(addr, name, iface, stage, reply).0) < rank(stage),
    ensures
        ({
            let x = join_step(addr, name, iface, stage, reply);
            &&& x.0 is Done <==> x.1.ask is None
            &&& x.1.ask matches Some(q) ==> work::fits(q, next) ==> rank(
                join_step(addr, name, iface, x.0, next).0,
            ) < rank(x.0)
        }),
{
}

/// A worker that is let in gets the configuration that the orchestrator's answer and its own private
/// key make up, and keeps the orchestrator's address in the tunnel.
pub proof fn law_joining_run(
    addr: Seq<char>,
    name: Seq<char>,
    iface: Seq<char>,
    public: Seq<char>,
    private: Option<Seq<char>>,
    answer: Seq<char>,
    reg: WgRegisterRespView,
    up: Option<bool>,
)
    ensures
        ({
            let n = Some(name);
            let a = join_step(
                addr,
                n,
                iface,
                JoinStageView::ReadPrivate { public },
                ReplyView::Text(private),
            );
            let b = join_step(addr, n, iface, a.0, ReplyView::Http(Ok(answer)));
            let c = join_step(addr, n, iface, b.0, ReplyView::Registration(Some(reg)));
            let d = join_step(addr, n, iface, c.0, ReplyView::Written(Ok(())));
            let e = join_step(addr, n, iface, d.0, ReplyView::Status(up));
            &&& a.1.ask == Some(
                QueryView::Post(addr, "/api/wg/register-worker"@, join_body(name, public)),
            )
            &&& b.1.ask == Some(QueryView::Registration(answer))
            &&& c.1.ask == Some(
                QueryView::Write(
                    worker::conf_path(iface),
                    tunnel_config(reg, text::trimmed(worker::or_empty(private))),
                ),
            )
            &&& d.1.effects == Seq::empty().push(
                EffectView::Exec(
                    work::command("chmod"@).push("600"@).push(worker::conf_path(iface)),
                ),
            )
            &&& d.1.ask == Some(
                QueryView::Run(work::command("wg-quick"@).push("up"@).push(worker::conf_path(iface))),
            )
            &&& e.0 is Done
            &&& e.1.effects.last() == EffectView::WriteText(WG_ADDR_PATH@, tunnel_addr(reg, addr))
        }),
{
}

/// An interface's configuration lies with WireGuard's others, under the interface's own name.
pub proof fn law_interface_has_its_name(iface: Seq<char>)
    requires
        text::lacks(iface, '/'),
    ensures
        paths::folder_of(worker::conf_path(iface)) == "/etc/wireguard"@,
        paths::name_of(worker::conf_path(iface)) == iface + ".conf"@,
{
    reveal_strlit("/etc/wireguard/");
    reveal_strlit("/etc/wireguard");
    reveal_strlit("/");
    reveal_strlit(".");
    reveal_strlit("..");
    reveal_strlit(".conf");
    let name = iface + ".conf"@;
    assert(worker::conf_path(iface) =~= "/etc/wireguard"@ + "/"@ + name);
    assert forall|i: int| 0 <= i < name.len() implies #[trigger] name[i] != '/' by {
        if i < iface.len() {
            assert(name[i] == iface[i]);
        } else {
            assert(name[i] == ".conf"@[i - iface.len()]);
        }
    }
    paths::law_paths("/etc/wireguard"@, name);
}

/// The orchestrator's address in the tunnel is the first one of the network that the worker may
/// reach; where that is no address of four parts, it is the usual one.
pub proof fn law_host_in_tunnel(
    a: Seq<char>,
    b: Seq<char>,
    c: Seq<char>,
    d: Seq<char>,
    rest: Seq<char>,
    s: Seq<char>,
)
    requires
        text::lacks(a, '.') && text::lacks(a, '/'),
        text::lacks(b, '.') && text::lacks(b, '/'),
        text::lacks(c, '.') && text::lacks(c, '/'),
        text::lacks(d, '.') && text::lacks(d, '/'),
        text::lacks(s, '.') && text::lacks(s, '/'),
    ensures
        host_in(a + "."@ + b + "."@ + c + "."@ + d + "/"@ + rest) == a + "."@ + b + "."@ + c + ".1"@,
        host_in(s) == "10.99.0.1"@,
        host_in(s + "/"@ + rest) == "10.99.0.1"@,
{
    reveal_strlit(".");
    reveal_strlit("/");
    let t = a + "."@ + b + "."@ + c + "."@ + d;
    text::lemma_first_separator(t, "/"@, rest);
    assert((t + "/"@ + rest).take(t.len() as int) =~= t);
    assert(t =~= a + "."@ + (b + "."@ + (c + "."@ + d)));
    text::lemma_first_piece(a, "."@, b + "."@ + (c + "."@ + d));
    text::lemma_first_piece(b, "."@, c + "."@ + d);
    text::lemma_first_piece(c, "."@, d);
    text::lemma_one_piece(d, "."@);
    let p = text::pieces(t, "."@);
    assert(p =~= Seq::empty().push(a).push(b).push(c).push(d));
    text::lemma_one_piece(s, "."@);
    text::lemma_find_from(s, "/"@, 0);
    if text::find(s, "/"@) is Some {
        text::lemma_single(s, "/"@, text::find(s, "/"@)->0);
    }
    text::lemma_first_separator(s, "/"@, rest);
    assert((s + "/"@ + rest).take(s.len() as int) =~= s);
}

/// The port is what follows the colon of an address, and the tunnel's address of the orchestrator
/// keeps it.
pub proof fn law_port(host: Seq<char>, port: Seq<char>, reg: WgRegisterRespView)
    requires
        text::lacks(host, ':'),
        text::lacks(port, ':'),
    ensures
        port_in(host + ":"@ + port) == port,
        tunnel_addr(reg, host + ":"@ + port) == host_in(reg.allowed_ips) + ":"@ + port,
{
    reveal_strlit(":");
    text::lemma_first_piece(host, ":"@, port);
    text::lemma_one_piece(port, ":"@);
}

/// The configuration of the tunnel gives the worker the address it was assigned and its own secret
/// key, and the server's key, endpoint and network as they were answered.
pub proof fn law_tunnel_config(reg: WgRegisterRespView, private: Seq<char>)
    ensures
        tunnel_config(reg, private) == "[Interface]\nAddress = "@ + reg.assigned_ip
            + "/32\nPrivateKey = "@ + private + "\n\n[Peer]\nPublicKey = "@ + reg.server_public_key
            + "\nEndpoint = "@ + reg.server_endpoint + "\nAllowedIPs = "@ + reg.allowed_ips
            + "\nPersistentKeepalive = "@ + text::int_text(reg.keepalive as int) + "\n"@,
{
}

/// What is sent to be let in, and what is said at the end.
pub proof fn law_join_texts(name: Seq<char>, key: Seq<char>, at: Seq<char>)
    ensures
        join_body(name, key) == "{\"name\":\""@ + name + "\",\"public_key\":\""@ + key + "\"}"@,
        farewell(at) == "\n[+] WireGuard setup complete!\n    Set SMECH_ORCHESTRATOR="@ + at
            + " in your environment\n    or pass --orchestrator "@ + at
            + " to worker commands\n\n    To start the worker daemon via WireGuard:\n    smech-farm-worker daemon --orchestrator "@
            + at + "\n"@,
{
}

/// The beginning of a run on a worker that has no key: the orchestrator is asked for its tunnel, the
/// directories are made, a key pair is made and kept, and both keys are read back.
pub proof fn law_joining_begins(
    addr: Seq<char>,
    name: Option<Seq<char>>,
    iface: Seq<char>,
    info: Seq<char>,
    secret: Seq<u8>,
    derived: OutputView,
    file: Option<Seq<char>>,
)
    requires
        !text::includes(info, "not enabled"@),
    ensures
        ({
            let key = "/etc/smech-farm/worker-wg.key"@;
            let public = "/etc/smech-farm/worker-wg.pub"@;
            let a = join_step(addr, name, iface, JoinStageView::Start, ReplyView::Begin);
            let b = join_step(addr, name, iface, a.0, ReplyView::Http(Ok(info)));
            let c = join_step(addr, name, iface, b.0, ReplyView::Found(false));
            let made = OutputView { success: true, stdout: secret };
            let d = join_step(addr, name, iface, c.0, ReplyView::Output(Some(made)));
            let e = join_step(addr, name, iface, d.0, ReplyView::Output(Some(derived)));
            let none = join_step(addr, name, iface, d.0, ReplyView::Output(None));
            let f = join_step(addr, name, iface, e.0, ReplyView::Text(file));
            let kept = join_step(addr, name, iface, b.0, ReplyView::Found(true));
            &&& a.1 == StepView::stop().print(
                "[*] SmechFarm WireGuard setup\n[*] Orchestrator: "@ + addr + "\n"@,
            ).then_ask(QueryView::Get(addr, "/api/wg/server-info"@))
            &&& b.1 == StepView::stop().with(EffectView::MakeDir("/etc/smech-farm"@)).with(
                EffectView::MakeDir("/etc/wireguard"@),
            ).then_ask(QueryView::Exists(key))
            &&& c.1 == StepView::stop().then_ask(
                QueryView::Capture(work::command("wg"@).push("genkey"@)),
            )
            &&& d.1 == StepView::stop().with(EffectView::WriteBytes(key, secret)).then_ask(
                QueryView::CaptureFrom(work::command("wg"@).push("pubkey"@), key),
            )
            &&& e.1 == StepView::stop().with(
                EffectView::WriteBytes(public, derived.stdout),
            ).print("[+] Generated WireGuard key pair\n"@).then_ask(QueryView::ReadText(public))
            &&& none.1 == StepView::stop().print("[+] Generated WireGuard key pair\n"@).then_ask(
                QueryView::ReadText(public),
            )
            &&& kept.1 == StepView::stop().then_ask(QueryView::ReadText(public))
            &&& kept.0 == e.0 && none.0 == e.0
            &&& f.1 == StepView::stop().then_ask(QueryView::ReadText(key))
            &&& file matches Some(t) ==> f.0 == (JoinStageView::ReadPrivate {
                public: text::trimmed(t),
            })
        }),
{
}

/// The rest of a run: the worker registers under the name that was given, or else its host name,
/// with its public key; writes the configuration with its secret key; closes it to others; and
/// brings the interface up, after which the orchestrator's new address is said and kept.
pub proof fn law_joining_goes_on(
    addr: Seq<char>,
    name: Seq<char>,
    iface: Seq<char>,
    public: Seq<char>,
    private: Seq<char>,
    host: Option<Seq<char>>,
    answer: Seq<char>,
    reg: WgRegisterRespView,
    up: Option<bool>,
)
    ensures
        ({
            let conf = "/etc/wireguard/"@ + iface + ".conf"@;
            let n = Some(name);
            let stage = JoinStageView::ReadPrivate { public };
            let a = join_step(addr, n, iface, stage, ReplyView::Text(Some(private)));
            let b = join_step(addr, n, iface, a.0, ReplyView::Http(Ok(answer)));
            let c = join_step(addr, n, iface, b.0, ReplyView::Registration(Some(reg)));
            let d = join_step(addr, n, iface, c.0, ReplyView::Written(Ok(())));
            let e = join_step(addr, n, iface, d.0, ReplyView::Status(up));
            let x = join_step(addr, None, iface, stage, ReplyView::Text(Some(private)));
            let y = join_step(addr, None, iface, x.0, ReplyView::Text(host));
            let at = tunnel_addr(reg, addr);
            &&& a.1 == StepView::stop().print("[*] Registering as '"@ + name + "'...\n"@).then_ask(
                QueryView::Post(
                    addr,
                    "/api/wg/register-worker"@,
                    "{\"name\":\""@ + name + "\",\"public_key\":\""@ + public + "\"}"@,
                ),
            )
            &&& x.1 == StepView::stop().then_ask(QueryView::ReadText("/etc/hostname"@))
            &&& y.1 == StepView::stop().print(
                "[*] Registering as '"@ + worker::host_of(host) + "'...\n"@,
            ).then_ask(
                QueryView::Post(
                    addr,
                    "/api/wg/register-worker"@,
                    "{\"name\":\""@ + worker::host_of(host) + "\",\"public_key\":\""@ + public
                        + "\"}"@,
                ),
            )
            &&& y.0 == a.0
            &&& b.1 == StepView::stop().then_ask(QueryView::Registration(answer))
            &&& c.1 == StepView::stop().print(
                "[+] Assigned WireGuard IP: "@ + reg.assigned_ip + "\n"@,
            ).then_ask(QueryView::Write(conf, tunnel_config(reg, text::trimmed(private))))
            &&& d.1 == StepView::stop().exec(
                work::command("chmod"@).push("600"@).push(conf),
            ).then_ask(QueryView::Run(work::command("wg-quick"@).push("up"@).push(conf)))
            &&& e.0 is Done
            &&& up == Some(true) ==> e.1 == StepView::stop().print(
                "[+] WireGuard interface "@ + iface + " is up\n"@,
            ).print(farewell(at)).with(
                EffectView::WriteText("/etc/smech-farm/wg-orchestrator"@, at),
            )
            &&& up != Some(true) ==> e.1 == StepView::stop().report(
                "[!] wg-quick up failed \u{2014} you may need to run this as root, or bring\n    up the interface manually: wg-quick up "@
                    + conf + "\n"@,
            ).print(farewell(at)).with(
                EffectView::WriteText("/etc/smech-farm/wg-orchestrator"@, at),
            )
        }),
{
}

/// Where a run ends early, it says why and does nothing more.
pub proof fn law_joining_stops(
    addr: Seq<char>,
    name: Option<Seq<char>>,
    iface: Seq<char>,
    why: Seq<char>,
    private: Seq<char>,
    answer: Seq<char>,
    reg: WgRegisterRespView,
    out: OutputView,
)
    requires
        !out.success,
    ensures
        join_step(addr, name, iface, JoinStageView::Info, ReplyView::Http(Err(why))) == (
            JoinStageView::Done,
            StepView::stop().report("[-] Cannot reach orchestrator: "@ + why + "\n"@),
        ),
        join_step(addr, name, iface, JoinStageView::Making, ReplyView::Output(None)) == (
            JoinStageView::Done,
            StepView::stop().report(NO_TOOLS@),
        ),
        join_step(addr, name, iface, JoinStageView::Making, ReplyView::Output(Some(out))) == (
            JoinStageView::Done,
            StepView::stop().report(NO_TOOLS@),
        ),
        text::includes(answer, "not enabled"@) ==> join_step(
            addr,
            name,
            iface,
            JoinStageView::Info,
            ReplyView::Http(Ok(answer)),
        ) == (JoinStageView::Done, StepView::stop().report(NO_TUNNEL@)),
        join_step(
            addr,
            name,
            iface,
            JoinStageView::Registering { private },
            ReplyView::Http(Err(why)),
        ) == (
            JoinStageView::Done,
            StepView::stop().report("[-] Registration failed: "@ + why + "\n"@),
        ),
        join_step(
            addr,
            name,
            iface,
            JoinStageView::Parsing { private, answer },
            ReplyView::Registration(None),
        ) == (
            JoinStageView::Done,
            StepView::stop().report("[-] Unexpected response: "@ + answer + "\n"@),
        ),
        join_step(
            addr,
            name,
            iface,
            JoinStageView::Writing { reg },
            ReplyView::Written(Err(why)),
        ) == (
            JoinStageView::Done,
            StepView::stop().report(
                "[-] Cannot write WireGuard config to "@ + ("/etc/wireguard/"@ + iface + ".conf"@)
                    + ": "@ + why + "\n    Try running as root.\n"@,
            ),
        ),
        NO_TOOLS@
            == "[-] wg binary not found. Install wireguard-tools first:\n    apt install wireguard-tools   (Debian/Ubuntu)\n    dnf install wireguard-tools   (Fedora/RHEL)\n"@,
        NO_TUNNEL@
            == "[-] WireGuard is not enabled on this orchestrator.\n    Set wireguard.enabled = true in smech-farm.toml on the orchestrator.\n"@,
{
}

/// Where a reply is not of the kind that was asked for, nothing is done and the same is awaited; once all
/// is done, nothing changes any more.
pub proof fn law_other_replies_change_nothing(
    addr: Seq<char>,
    name: Option<Seq<char>>,
    iface: Seq<char>,
    stage: JoinStageView,
    reply: ReplyView,
)
    ensures
        stage is Info && !(reply is Http) ==> join_step(addr, name, iface, stage, reply) == (stage, StepView::stop()),
        stage is Looking && !(reply is Found) ==> join_step(addr, name, iface, stage, reply) == (stage, StepView::stop()),
        stage is Making && !(reply is Output) ==> join_step(addr, name, iface, stage, reply) == (stage, StepView::stop()),
        stage is Deriving && !(reply is Output) ==> join_step(addr, name, iface, stage, reply) == (stage, StepView::stop()),
        stage is ReadPublic && !(reply is Text) ==> join_step(addr, name, iface, stage, reply) == (stage, StepView::stop()),
        stage is ReadPrivate && !(reply is Text) ==> join_step(addr, name, iface, stage, reply) == (stage, StepView::stop()),
        stage is Naming && !(reply is Text) ==> join_step(addr, name, iface, stage, reply) == (stage, StepView::stop()),
        stage is Registering && !(reply is Http) ==> join_step(addr, name, iface, stage, reply) == (stage, StepView::stop()),
        stage is Parsing && !(reply is Registration) ==> join_step(addr, name, iface, stage, reply) == (stage, StepView::stop()),
        stage is Writing && !(reply is Written) ==> join_step(addr, name, iface, stage, reply) == (stage, StepView::stop()),
        stage is Raising && !(reply is Status) ==> join_step(addr, name, iface, stage, reply) == (stage, StepView::stop()),
        stage is Done ==> join_step(addr, name, iface, stage, reply) == (stage, StepView::stop()),
{
}

} // verus!
