//! The orchestrator's end of the tunnel: its key pair, and its interface.

use vstd::prelude::*;

use crate::config;
use crate::config::{wg_enabled, wg_key_path, wg_pubkey_path, WireGuardConfig, WireGuardConfigView};
use crate::peers;
use crate::peers::add_peer_cmd;
use crate::records;
use crate::records::{PeerRow, PeerRowView};
use crate::text;
use crate::text::{number, trim};
use crate::work;
use crate::work::{
    Cmd, Effect, EffectView, OutputView, Query, QueryView, Reply, ReplyView, Step, StepView,
};

verus! {

/// What the setup of the tunnel waits for.
#[derive(Clone, Copy, Debug, PartialEq, Eq)]
pub enum SetupStage {
    Start,
    /// The private key is looked for.
    Looking,
    /// A private key is being made.
    Making,
    /// The public key is being derived from it.
    Deriving,
    /// The interface is up, and the peers were asked for.
    Readding,
    Done,
}

/// The commands that bring the interface up.
pub open spec fn raised(wg: WireGuardConfigView, step: StepView) -> StepView {
    step.exec(
        work::command("ip"@).push("link"@).push("add"@).push(wg.interface).push("type"@).push(
            "wireguard"@,
        ),
    ).exec(
        work::command("wg"@).push("set"@).push(wg.interface).push("private-key"@).push(
            config::key_path(wg.interface),
        ).push("listen-port"@).push(text::nat_text(wg.listen_port as nat)),
    ).exec(
        work::command("ip"@).push("addr"@).push("add"@).push(wg.server_wg_ip).push("dev"@).push(
            wg.interface,
        ),
    ).exec(work::command("ip"@).push("link"@).push("set"@).push(wg.interface).push("up"@))
}

/// The commands that let the first `n` of the peers in again, behind what `step` already does.
pub open spec fn readded(
    wg: WireGuardConfigView,
    step: StepView,
    list: Seq<PeerRowView>,
    n: nat,
) -> StepView
    decreases n,
{
    if n == 0 {
        step
    } else {
        readded(wg, step, list, (n - 1) as nat).exec(
            peers::add_peer_command(
                wg.interface,
                list[n - 1].public_key,
                list[n - 1].assigned_ip,
            ),
        )
    }
}

/// How the setup of the tunnel goes on.
pub open spec fn setup_step(wg: WireGuardConfigView, stage: SetupStage, reply: ReplyView) -> (
    SetupStage,
    StepView,
) {
    match (stage, reply) {
        (SetupStage::Start, _) => if !wg.enabled {
            (SetupStage::Done, StepView::stop())
        } else {
            (
                SetupStage::Looking,
                StepView::stop().with(EffectView::MakeDir("/etc/smech-farm"@)).then_ask(
                    QueryView::Exists(config::key_path(wg.interface)),
                ),
            )
        },
        (SetupStage::Looking, ReplyView::Found(b)) => if b {
            (SetupStage::Readding, raised(wg, StepView::stop()).then_ask(QueryView::Peers))
        } else {
            (
                SetupStage::Making,
                StepView::stop().then_ask(
                    QueryView::Capture(work::command("wg"@).push("genkey"@)),
                ),
            )
        },
        (SetupStage::Making, ReplyView::Output(o)) => match o {
            Some(out) => if out.success {
                (
                    SetupStage::Deriving,
                    StepView::stop().with(
                        EffectView::WriteBytes(config::key_path(wg.interface), out.stdout),
                    ).then_ask(
                        QueryView::CaptureFrom(
                            work::command("wg"@).push("pubkey"@),
                            config::key_path(wg.interface),
                        ),
                    ),
                )
            } else {
                no_wg()
            },
            None => no_wg(),
        },
        (SetupStage::Deriving, ReplyView::Output(o)) => (
            SetupStage::Readding,
            raised(
                wg,
                (match o {
                    Some(out) => StepView::stop().with(
                        EffectView::WriteBytes(config::pubkey_path(wg.interface), out.stdout),
                    ),
                    None => StepView::stop(),
                }).report("[wg] generated server key pair\n"@),
            ).then_ask(QueryView::Peers),
        ),
        (SetupStage::Readding, ReplyView::Peers(list)) => (
            SetupStage::Done,
            readded(wg, StepView::stop(), list, list.len()).report(
                "[wg] interface "@ + wg.interface + " is up ("@ + wg.server_wg_ip + ")\n"@,
            ),
        ),
        (s, _) => (s, StepView::stop()),
    }
}

/// The end of a setup for which there is no `wg`.
pub open spec fn no_wg() -> (SetupStage, StepView) {
    (
        SetupStage::Done,
        StepView::stop().report(
            "[wg] WARNING: wg binary not found \u{2014} WireGuard will not be active\n"@,
        ),
    )
}

fn stop_without_wg() -> (r: (SetupStage, Step))
    ensures
        (r.0, r.1@) == no_wg(),
{
    (
        SetupStage::Done,
        Step::stop().report(
            "[wg] WARNING: wg binary not found \u{2014} WireGuard will not be active\n".to_string(),
        ),
    )
}

fn raise(wg: &WireGuardConfig, step: Step) -> (r: Step)
    ensures
        r@ == raised(wg@, step@),
{
    let iface = wg.interface.as_str();
    step.exec(Cmd::new("ip").arg("link").arg("add").arg(iface).arg("type").arg("wireguard")).exec(
        Cmd::new("wg").arg("set").arg(iface).arg("private-key").arg(
            wg_key_path(wg).as_str(),
        ).arg("listen-port").arg(number(wg.listen_port as u64).as_str()),
    ).exec(
        Cmd::new("ip").arg("addr").arg("add").arg(wg.server_wg_ip.as_str()).arg("dev").arg(iface),
    ).exec(Cmd::new("ip").arg("link").arg("set").arg(iface).arg("up"))
}

fn readd(wg: &WireGuardConfig, list: &Vec<PeerRow>) -> (r: Step)
    ensures
        r@ == readded(wg@, StepView::stop(), records::views(list@), list@.len()),
{
    let ghost all = records::views(list@);
    let mut step = Step::stop();
    for i in 0..list.len()
        invariant
            all == records::views(list@),
            step@ == readded(wg@, StepView::stop(), all, i as nat),
    {
        assert(all[i as int] == list@[i as int]@);
        step = step.exec(
            add_peer_cmd(
                wg.interface.as_str(),
                list[i].public_key.as_str(),
                list[i].assigned_ip.as_str(),
            ),
        );
    }
    step
}

/// How the setup of the tunnel goes on: a key pair is made where there is none, the interface is
/// brought up, and the peers are let in again.
pub fn setup_wireguard(wg: &WireGuardConfig, stage: SetupStage, reply: Reply) -> (r: (
    SetupStage,
    Step,
))
    ensures
        (r.0, r.1@) == setup_step(wg@, stage, reply@),
{
    match (stage, reply) {
        (SetupStage::Start, _) => {
            if !wg_enabled(wg) {
                (SetupStage::Done, Step::stop())
            } else {
                (
                    SetupStage::Looking,
                    Step::stop().with(Effect::MakeDir("/etc/smech-farm".to_string())).then_ask(
                        Query::Exists(wg_key_path(wg)),
                    ),
                )
            }
        },
        (SetupStage::Looking, Reply::Found(b)) => {
            if b {
                (SetupStage::Readding, raise(wg, Step::stop()).then_ask(Query::Peers))
            } else {
                (
                    SetupStage::Making,
                    Step::stop().then_ask(Query::Capture(Cmd::new("wg").arg("genkey"))),
                )
            }
        },
        (SetupStage::Making, Reply::Output(o)) => match o {
            Some(out) => {
                if out.success {
                    (
                        SetupStage::Deriving,
                        Step::stop().with(
                            Effect::WriteBytes(wg_key_path(wg), out.stdout),
                        ).then_ask(
                            Query::CaptureFrom(Cmd::new("wg").arg("pubkey"), wg_key_path(wg)),
                        ),
                    )
                } else {
                    stop_without_wg()
                }
            },
            None => stop_without_wg(),
        },
        (SetupStage::Deriving, Reply::Output(o)) => {
            let step = match o {
                Some(out) => Step::stop().with(
                    Effect::WriteBytes(wg_pubkey_path(wg), out.stdout),
                ),
                None => Step::stop(),
            };
            (
                SetupStage::Readding,
                raise(wg, step.report("[wg] generated server key pair\n".to_string())).then_ask(
                    Query::Peers,
                ),
            )
        },
        (SetupStage::Readding, Reply::Peers(list)) => {
            let line = "[wg] interface ".to_string().concat(wg.interface.as_str()).concat(
                " is up (",
            ).concat(wg.server_wg_ip.as_str()).concat(")\n");
            (SetupStage::Done, readd(wg, &list).report(line))
        },
        (s, _) => (s, Step::stop()),
    }
}

/// The server's public key, given what its file holds: nothing where it cannot be read.
pub open spec fn server_pubkey(file: Option<Seq<char>>) -> Seq<char> {
    match file {
        Some(s) => text::trimmed(s),
        None => Seq::empty(),
    }
}

/// The server's public key, given what its file holds: nothing where it cannot be read.
pub fn wg_server_pubkey(file: &Option<String>) -> (r: String)
    ensures
        r@ == server_pubkey(records::opt_text(*file)),
{
    match file {
        Some(s) => trim(s.as_str()).to_string(),
        None => String::new(),
    }
}

/// While the tunnel is off, its setup does nothing at all.
pub proof fn law_off_does_nothing(wg: WireGuardConfigView, reply: ReplyView)
    requires
        !wg.enabled,
    ensures
        setup_step(wg, SetupStage::Start, reply) == (SetupStage::Done, StepView::stop()),
{
}

/// A key pair that is there is never replaced: no file is written on the way that finds it.
pub proof fn law_key_is_kept(wg: WireGuardConfigView, list: Seq<PeerRowView>, i: int)
    ensures
        ({
            let a = setup_step(wg, SetupStage::Looking, ReplyView::Found(true));
            let b = setup_step(wg, a.0, ReplyView::Peers(list));
            &&& b.0 is Done
            &&& 0 <= i < a.1.effects.len() ==> a.1.effects[i] is Exec
            &&& 0 <= i < b.1.effects.len() ==> b.1.effects[i] is Exec || b.1.effects[i] is Report
        }),
{
    lemma_readded(wg, list, list.len());
}

proof fn lemma_readded(wg: WireGuardConfigView, list: Seq<PeerRowView>, n: nat)
    requires
        n <= list.len(),
    ensures
        readded(wg, StepView::stop(), list, n).effects.len() == n,
        forall|i: int|
            0 <= i < n ==> #[trigger] readded(wg, StepView::stop(), list, n).effects[i]
                == EffectView::Exec(
                peers::add_peer_command(
                    wg.interface,
                    list[i].public_key,
                    list[i].assigned_ip,
                ),
            ),
    decreases n,
{
    if n > 0 {
        lemma_readded(wg, list, (n - 1) as nat);
    }
}

/// Every peer of the list is let in again, under its own address, and in the list's order.
pub proof fn law_peers_are_readded(wg: WireGuardConfigView, list: Seq<PeerRowView>, i: int)
    requires
        0 <= i < list.len(),
    ensures
        setup_step(wg, SetupStage::Readding, ReplyView::Peers(list)).1.effects[i]
            == EffectView::Exec(
            peers::add_peer_command(wg.interface, list[i].public_key, list[i].assigned_ip),
        ),
{
    lemma_readded(wg, list, list.len());
}

/// How many answers the setup can still need.
pub open spec fn rank(s: SetupStage) -> nat {
    match s {
        SetupStage::Start => 5,
        SetupStage::Looking => 4,
        SetupStage::Making => 3,
        SetupStage::Deriving => 2,
        SetupStage::Readding => 1,
        SetupStage::Done => 0,
    }
}

/// The setup comes to an end: each step leads nearer to it, and asks something unless it is there.
pub proof fn law_setup_ends(
    wg: WireGuardConfigView,
    stage: SetupStage,
    reply: ReplyView,
    next: ReplyView,
)
    requires
        rank(setup_step(wg, stage, reply).0) < rank(stage),
    ensures
        ({
            let x = setup_step(wg, stage, reply);
            &&& x.0 is Done <==> x.1.ask is None
            &&& x.1.ask matches Some(q) ==> work::fits(q, next) ==> rank(
                setup_step(wg, x.0, next).0,
            ) < rank(x.0)
        }),
{
    if let ReplyView::Peers(list) = reply {
        lemma_readded_asks(wg, list, list.len());
    }
}

proof fn lemma_readded_asks(wg: WireGuardConfigView, list: Seq<PeerRowView>, n: nat)
    ensures
        readded(wg, StepView::stop(), list, n).ask is None,
    decreases n,
{
    if n > 0 {
        lemma_readded_asks(wg, list, (n - 1) as nat);
    }
}

/// The interface is brought up by four commands: it is added, given its key and its port, given the
/// server's address, and set up.
pub proof fn law_raising(wg: WireGuardConfigView, step: StepView)
    ensures
        raised(wg, step) == step.exec(
            work::command("ip"@).push("link"@).push("add"@).push(wg.interface).push("type"@).push(
                "wireguard"@,
            ),
        ).exec(
            work::command("wg"@).push("set"@).push(wg.interface).push("private-key"@).push(
                "/etc/smech-farm/"@ + wg.interface + ".key"@,
            ).push("listen-port"@).push(text::int_text(wg.listen_port as int)),
        ).exec(
            work::command("ip"@).push("addr"@).push("add"@).push(wg.server_wg_ip).push(
                "dev"@,
            ).push(wg.interface),
        ).exec(work::command("ip"@).push("link"@).push("set"@).push(wg.interface).push("up"@)),
{
}

/// A tunnel without a key gets one first: the secret key is made and kept in its file, the public
/// key is derived from that file and kept in its own, and only then the interface is brought up.
pub proof fn law_first_setup(
    wg: WireGuardConfigView,
    secret: Seq<u8>,
    derived: OutputView,
    list: Seq<PeerRowView>,
)
    requires
        wg.enabled,
    ensures
        ({
            let key = "/etc/smech-farm/"@ + wg.interface + ".key"@;
            let public = "/etc/smech-farm/"@ + wg.interface + ".pub"@;
            let a = setup_step(wg, SetupStage::Start, ReplyView::Begin);
            let b = setup_step(wg, a.0, ReplyView::Found(false));
            let made = OutputView { success: true, stdout: secret };
            let c = setup_step(wg, b.0, ReplyView::Output(Some(made)));
            let d = setup_step(wg, c.0, ReplyView::Output(Some(derived)));
            let e = setup_step(wg, d.0, ReplyView::Peers(list));
            let missing = setup_step(wg, c.0, ReplyView::Output(None));
            &&& a.1 == StepView::stop().with(EffectView::MakeDir("/etc/smech-farm"@)).then_ask(
                QueryView::Exists(key),
            )
            &&& b.1 == StepView::stop().then_ask(
                QueryView::Capture(work::command("wg"@).push("genkey"@)),
            )
            &&& c.1 == StepView::stop().with(EffectView::WriteBytes(key, secret)).then_ask(
                QueryView::CaptureFrom(work::command("wg"@).push("pubkey"@), key),
            )
            &&& d.1 == raised(
                wg,
                StepView::stop().with(EffectView::WriteBytes(public, derived.stdout)).report(
                    "[wg] generated server key pair\n"@,
                ),
            ).then_ask(QueryView::Peers)
            &&& missing.1 == raised(
                wg,
                StepView::stop().report("[wg] generated server key pair\n"@),
            ).then_ask(QueryView::Peers)
            &&& e.0 is Done
            &&& e.1.effects.len() == list.len() + 1
            &&& e.1.effects.last() == EffectView::Report(
                "[wg] interface "@ + wg.interface + " is up ("@ + wg.server_wg_ip + ")\n"@,
            )
            &&& e.1.ask is None
        }),
{
    lemma_readded(wg, list, list.len());
    lemma_readded_asks(wg, list, list.len());
}

/// Without the tools there is a warning, and no tunnel.
pub proof fn law_setup_without_tools(wg: WireGuardConfigView, out: OutputView)
    requires
        !out.success,
    ensures
        ({
            let a = setup_step(wg, SetupStage::Making, ReplyView::Output(Some(out)));
            let b = setup_step(wg, SetupStage::Making, ReplyView::Output(None));
            &&& a == b
            &&& a.0 is Done
            &&& a.1 == StepView::stop().report(
                "[wg] WARNING: wg binary not found \u{2014} WireGuard will not be active\n"@,
            )
        }),
{
}

/// The public key is what its file holds, without the blanks around it; without a file it is empty.
pub proof fn law_server_key(key: Seq<char>)
    requires
        key.len() > 0,
        !text::is_white(key[0]),
        !text::is_white(key.last()),
    ensures
        server_pubkey(Some(key)) == key,
        server_pubkey(Some(key + "\n"@)) == key,
        server_pubkey(None).len() == 0,
{
    reveal_strlit("\n");
    text::law_white('\n');
    text::lemma_trim_line(key, Seq::empty());
    text::lemma_trim_line(key, "\n"@);
    assert(key + Seq::empty() =~= key);
}

/// Where a reply is not of the kind that was asked for, nothing is done and the same is awaited; once all
/// is done, nothing changes any more.
pub proof fn law_other_replies_change_nothing(wg: WireGuardConfigView, stage: SetupStage, reply: ReplyView)
    ensures
        stage is Looking && !(reply is Found) ==> setup_step(wg, stage, reply) == (stage, StepView::stop()),
        stage is Making && !(reply is Output) ==> setup_step(wg, stage, reply) == (stage, StepView::stop()),
        stage is Deriving && !(reply is Output) ==> setup_step(wg, stage, reply) == (stage, StepView::stop()),
        stage is Readding && !(reply is Peers) ==> setup_step(wg, stage, reply) == (stage, StepView::stop()),
        stage is Done ==> setup_step(wg, stage, reply) == (stage, StepView::stop()),
{
}

} // verus!
