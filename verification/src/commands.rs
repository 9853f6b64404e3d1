//! What the commands of the orchestrator's shell do.

use vstd::prelude::*;

use crate::api;
use crate::api::{network_of, order_by_age};
use crate::config;
use crate::config::{wg_pubkey_path, Config, ConfigView, WireGuardConfig, WireGuardConfigView};
use crate::jobs;
use crate::jobs::submit_body;
use crate::json_text;
use crate::json_text::{pretty_print_json, pretty_printable};
use crate::order;
use crate::paths;
use crate::paths::file_name;
use crate::records;
use crate::records::{PeerRow, PeerRowView};
use crate::shell::{ShellCommand, ShellCommandView};
use crate::text;
use crate::text::{chars_of, head, number, pad, repeat, trim};
use crate::wireguard;
use crate::wireguard::wg_server_pubkey;
use crate::work;
use crate::work::{
    Cmd, Effect, EffectView, Printed, PrintedView, Query, QueryView, Reply, ReplyView, Step, StepView,
};

verus! {

/// Where the API of this machine is found.
pub const API_URL: &'static str = "http://127.0.0.1:7734";

/// The command that asks the API for `path`.
pub open spec fn get_command(path: Seq<char>) -> Seq<Seq<char>> {
    work::command("curl"@).push("-sf"@).push(API_URL@ + path)
}

/// The command that asks the API for `path`.
pub fn api_get(path: &str) -> (r: Cmd)
    ensures
        r@ == get_command(path@),
{
    Cmd::new("curl").arg("-sf").arg(API_URL.to_string().concat(path).as_str())
}

/// The command that sends `body` to the API under `path`.
pub open spec fn post_command(path: Seq<char>, body: Seq<char>) -> Seq<Seq<char>> {
    work::command("curl"@).push("-sf"@).push("-X"@).push("POST"@).push("-H"@).push(
        "Content-Type: application/json"@,
    ).push("-d"@).push(body).push(API_URL@ + path)
}

/// The command that sends `body` to the API under `path`.
pub fn api_post(path: &str, body: &str) -> (r: Cmd)
    ensures
        r@ == post_command(path@, body@),
{
    Cmd::new("curl").arg("-sf").arg("-X").arg("POST").arg("-H").arg(
        "Content-Type: application/json",
    ).arg("-d").arg(body).arg(API_URL.to_string().concat(path).as_str())
}

/// Who the log names for an entry into the host's shell.
pub const ACCESS_BY: &'static str = "orchestrator-shell";

/// What the log says of an entry into the host's shell.
pub const ACCESS_NOTE: &'static str = "orchestrator-shell-access";

/// What the command that asks the API printed: nothing where it could not be started, or printed no
/// text.
pub open spec fn printed(p: Option<PrintedView>) -> Option<Seq<char>> {
    match p {
        Some(out) => out.text,
        None => None,
    }
}

/// What the command that asks the API printed.
pub fn api_output(p: Option<Printed>) -> (r: Option<String>)
    ensures
        records::opt_text(r) == printed(records::opt_view(p)),
{
    match p {
        Some(out) => out.text,
        None => None,
    }
}

/// What the API answered, given what the command that asked it gave: nothing where the command could
/// not be started, failed, or printed no text.
pub open spec fn answered(p: Option<PrintedView>) -> Option<Seq<char>> {
    match p {
        Some(out) => if out.success {
            out.text
        } else {
            None
        },
        None => None,
    }
}

/// What the API answered, given what the command that asked it gave.
pub fn api_answer(p: Option<Printed>) -> (r: Option<String>)
    ensures
        records::opt_text(r) == answered(records::opt_view(p)),
{
    match p {
        Some(out) => {
            if out.success {
                out.text
            } else {
                None
            }
        },
        None => None,
    }
}

/// Whether a command is carried out even where the API fails at it.
pub open spec fn is_forced(c: ShellCommandView) -> bool {
    c is DownloadQueued || c is PushPackages
}

/// What counts as the API's answer to a command: where the command is forced, only what the API
/// answered; otherwise whatever was printed.
pub open spec fn told(c: ShellCommandView, p: Option<PrintedView>) -> Option<Seq<char>> {
    if is_forced(c) {
        answered(p)
    } else {
        printed(p)
    }
}

/// What counts as the API's answer to a command.
fn answer_to(c: &ShellCommand, p: Option<Printed>) -> (r: Option<String>)
    ensures
        records::opt_text(r) == told(c@, records::opt_view(p)),
{
    match c {
        ShellCommand::DownloadQueued | ShellCommand::PushPackages => api_answer(p),
        _ => api_output(p),
    }
}

/// How many bytes a character takes in UTF-8.
pub open spec fn byte_len(c: char) -> nat {
    let n = c as int;
    if n < 0x80 {
        1
    } else if n < 0x800 {
        2
    } else if n < 0x1_0000 {
        3
    } else {
        4
    }
}

/// The first `n` bytes of `s`, or all of it where it has fewer: none where they end inside a
/// character.
pub open spec fn byte_prefix(s: Seq<char>, n: nat) -> Option<Seq<char>>
    decreases s.len(),
{
    if n == 0 || s.len() == 0 {
        Some(Seq::empty())
    } else if byte_len(s[0]) > n {
        None
    } else {
        match byte_prefix(s.drop_first(), (n - byte_len(s[0])) as nat) {
            Some(rest) => Some(Seq::empty().push(s[0]) + rest),
            None => None,
        }
    }
}

fn bytes_in(c: char) -> (r: usize)
    ensures
        r == byte_len(c),
{
    let n: u32 = c as u32;
    if n < 0x80 {
        1
    } else if n < 0x800 {
        2
    } else if n < 0x1_0000 {
        3
    } else {
        4
    }
}

/// The first `n` bytes of `s`, or all of it where it has fewer: none where they end inside a
/// character.
pub fn first_bytes(s: &str, n: usize) -> (r: Option<String>)
    ensures
        records::opt_text(r) == byte_prefix(s@, n as nat),
{
    let cs = chars_of(s);
    let len = cs.len();
    let mut left: usize = n;
    let mut i: usize = 0;
    proof {
        assert(s@.skip(0) =~= s@);
        match byte_prefix(s@, n as nat) {
            Some(p) => {
                assert(s@.take(0) + p =~= p);
            },
            None => {},
        }
    }
    while left > 0 && i < len
        invariant
            i <= len,
            len == cs@.len(),
            cs@ == s@,
            match byte_prefix(s@.skip(i as int), left as nat) {
                Some(p) => byte_prefix(s@, n as nat) == Some(s@.take(i as int) + p),
                None => byte_prefix(s@, n as nat) is None,
            },
        decreases len - i,
    {
        let ghost rest = s@.skip(i as int);
        assert(rest[0] == s@[i as int]);
        assert(rest.drop_first() =~= s@.skip(i + 1));
        let b = bytes_in(cs[i]);
        if b > left {
            return None;
        }
        proof {
            match byte_prefix(s@.skip(i + 1), (left - b) as nat) {
                Some(p) => {
                    assert(s@.take(i as int) + (Seq::empty().push(rest[0]) + p) =~= s@.take(i + 1)
                        + p);
                },
                None => {},
            }
        }
        left -= b;
        i += 1;
    }
    let r = s.substring_char(0, i).to_string();
    assert(r@ =~= s@.take(i as int) + Seq::<char>::empty());
    Some(r)
}

/// How much of a key is shown.
pub const KEY_SHOWN: usize = 32;

/// A line of the list of peers.
pub open spec fn peer_row(p: PeerRowView, key: Seq<char>) -> Seq<char> {
    "  "@ + text::padded(p.worker_name, 20) + " "@ + text::padded(p.assigned_ip, 16) + " "@ + key
        + "\n"@
}

/// The lines of the list of peers from `i` on, behind what `step` already does: it breaks off where
/// the part of a key that is shown would end inside a character.
pub open spec fn peer_rows(rows: Seq<PeerRowView>, order: Seq<int>, i: int, step: StepView) -> StepView
    decreases order.len() - i,
{
    if i >= order.len() {
        step
    } else {
        match byte_prefix(rows[order[i]].public_key, KEY_SHOWN as nat) {
            Some(key) => peer_rows(rows, order, i + 1, step.print(peer_row(rows[order[i]], key))),
            None => step.with(EffectView::Abort("a key cannot be cut inside a character"@)),
        }
    }
}

/// The head of the list of peers.
pub open spec fn peers_head() -> Seq<char> {
    "  "@ + text::padded("Name"@, 20) + " "@ + text::padded("IP"@, 16) + " Public Key\n  "@
        + text::times('-', 80) + "\n"@
}

/// The list of peers, who came first being first.
pub open spec fn peers_step(rows: Seq<PeerRowView>) -> StepView {
    if rows.len() == 0 {
        StepView::stop().print("  No WireGuard peers registered.\n"@)
    } else {
        peer_rows(rows, api::by_age(rows), 0, StepView::stop().print(peers_head()))
    }
}

/// Lists the peers, who came first being first.
pub fn cmd_wg_list_peers(rows: &Vec<PeerRow>) -> (r: Step)
    ensures
        r@ == peers_step(records::views(rows@)),
{
    let ghost all = records::views(rows@);
    if rows.len() == 0 {
        return Step::stop().print("  No WireGuard peers registered.\n".to_string());
    }
    let order = order_by_age(rows);
    let ghost ord = order::ints(order@);
    let top = "  ".to_string().concat(pad("Name", 20).as_str()).concat(" ").concat(
        pad("IP", 16).as_str(),
    ).concat(" Public Key\n  ").concat(repeat('-', 80).as_str()).concat("\n");
    let mut step = Step::stop().print(top);
    let n = order.len();
    for i in 0..n
        invariant
            all == records::views(rows@),
            n == order@.len(),
            ord == order::ints(order@),
            ord == api::by_age(all),
            rows@.len() > 0,
            forall|k: int| 0 <= k < order@.len() ==> #[trigger] order@[k] < rows@.len(),
            peer_rows(all, ord, i as int, step@) == peer_rows(
                all,
                ord,
                0,
                StepView::stop().print(peers_head()),
            ),
    {
        let k = order[i];
        assert(ord[i as int] == k);
        let row = &rows[k];
        assert(all[k as int] == row@);
        match first_bytes(row.public_key.as_str(), KEY_SHOWN) {
            Some(key) => {
                let line = "  ".to_string().concat(pad(row.worker_name.as_str(), 20).as_str()).concat(
                    " ",
                ).concat(pad(row.assigned_ip.as_str(), 16).as_str()).concat(" ").concat(
                    key.as_str(),
                ).concat("\n");
                step = step.print(line);
            },
            None => {
                return step.with(
                    Effect::Abort("a key cannot be cut inside a character".to_string()),
                );
            },
        }
    }
    step
}

/// What is said of a worker that was let into the tunnel with the address `ip`, given what the file
/// of the server's public key holds.
pub open spec fn added_text(
    wg: WireGuardConfigView,
    name: Seq<char>,
    ip: Seq<char>,
    file: Option<Seq<char>>,
) -> Seq<char> {
    let key = wireguard::server_pubkey(file);
    let own = api::server_ip(wg);
    "  [+] Worker '"@ + name + "' registered\n  Assigned WireGuard IP : "@ + ip
        + "\n  Server public key     : "@ + key + "\n  Server endpoint       : "@
        + wg.server_endpoint + "\n  Server WireGuard IP   : "@ + own
        + "\n\n  Worker WireGuard config:\n"@ + RULE@ + "  [Interface]\n  Address    = "@ + ip
        + "/32\n  PrivateKey = <worker private key here>\n  DNS        = "@ + own
        + "\n\n  [Peer]\n  PublicKey  = "@ + key + "\n  Endpoint   = "@ + wg.server_endpoint
        + "\n  AllowedIPs = "@ + api::net_of(own) + "\n  PersistentKeepalive = 25\n"@ + RULE@
}

/// A line across.
pub const RULE: &'static str = "  ─────────────────────────────────────────\n";

/// Says what became of a worker that was let into the tunnel with the address `ip`.
pub fn cmd_wg_add_worker(wg: &WireGuardConfig, name: &str, ip: &str, file: &Option<String>) -> (r: String)
    ensures
        r@ == added_text(wg@, name@, ip@, records::opt_text(*file)),
{
    let key = wg_server_pubkey(file);
    let own = head(wg.server_wg_ip.as_str(), "/");
    let end = wg.server_endpoint.as_str();
    "  [+] Worker '".to_string().concat(name).concat(
        "' registered\n  Assigned WireGuard IP : ",
    ).concat(ip).concat("\n  Server public key     : ").concat(key.as_str()).concat(
        "\n  Server endpoint       : ",
    ).concat(end).concat("\n  Server WireGuard IP   : ").concat(own).concat(
        "\n\n  Worker WireGuard config:\n",
    ).concat(RULE).concat("  [Interface]\n  Address    = ").concat(ip).concat(
        "/32\n  PrivateKey = <worker private key here>\n  DNS        = ",
    ).concat(own).concat("\n\n  [Peer]\n  PublicKey  = ").concat(key.as_str()).concat(
        "\n  Endpoint   = ",
    ).concat(end).concat("\n  AllowedIPs = ").concat(network_of(own).as_str()).concat(
        "\n  PersistentKeepalive = 25\n",
    ).concat(RULE)
}

/// What is said of the tunnel, given what the file of the server's public key holds.
pub open spec fn tunnel_text(wg: WireGuardConfigView, file: Option<Seq<char>>) -> Seq<char> {
    "  WireGuard interface : "@ + wg.interface + "\n  Server WireGuard IP : "@ + wg.server_wg_ip
        + "\n  Listen port         : "@ + text::nat_text(wg.listen_port as nat)
        + "\n  Server endpoint     : "@ + wg.server_endpoint + "\n  Server public key   : "@
        + wireguard::server_pubkey(file) + "\n\n"@
}

/// Says what the tunnel is like, given what the file of the server's public key holds.
pub fn cmd_wg_status(wg: &WireGuardConfig, file: &Option<String>) -> (r: String)
    ensures
        r@ == tunnel_text(wg@, records::opt_text(*file)),
{
    "  WireGuard interface : ".to_string().concat(wg.interface.as_str()).concat(
        "\n  Server WireGuard IP : ",
    ).concat(wg.server_wg_ip.as_str()).concat("\n  Listen port         : ").concat(
        number(wg.listen_port as u64).as_str(),
    ).concat("\n  Server endpoint     : ").concat(wg.server_endpoint.as_str()).concat(
        "\n  Server public key   : ",
    ).concat(wg_server_pubkey(file).as_str()).concat("\n\n")
}

/// What a command of the shell waits for.
#[derive(Debug, PartialEq, Eq)]
pub enum CommandStage {
    Start,
    /// The API was asked for what is to be shown.
    Showing,
    /// The file is looked for.
    Looking,
    /// The file is being read.
    Reading,
    /// The job is being submitted.
    Submitting,
    /// The API was told.
    Telling,
    /// What the API could not be told is being done here.
    Acting,
    /// The time was asked for.
    Timing,
    /// The host's shell was asked for.
    Opening,
    /// The file of the server's public key is being read.
    Key,
    /// The peers were asked for.
    Peers,
    /// The worker is being registered.
    Registering,
    /// It got this address, and the file of the server's public key is being read.
    Added(String),
    Done,
}

pub enum CommandStageView {
    Start,
    Showing,
    Looking,
    Reading,
    Submitting,
    Telling,
    Acting,
    Timing,
    Opening,
    Key,
    Peers,
    Registering,
    Added(Seq<char>),
    Done,
}

impl View for CommandStage {
    type V = CommandStageView;

    open spec fn view(&self) -> CommandStageView {
        match self {
            CommandStage::Start => CommandStageView::Start,
            CommandStage::Showing => CommandStageView::Showing,
            CommandStage::Looking => CommandStageView::Looking,
            CommandStage::Reading => CommandStageView::Reading,
            CommandStage::Submitting => CommandStageView::Submitting,
            CommandStage::Telling => CommandStageView::Telling,
            CommandStage::Acting => CommandStageView::Acting,
            CommandStage::Timing => CommandStageView::Timing,
            CommandStage::Opening => CommandStageView::Opening,
            CommandStage::Key => CommandStageView::Key,
            CommandStage::Peers => CommandStageView::Peers,
            CommandStage::Registering => CommandStageView::Registering,
            CommandStage::Added(ip) => CommandStageView::Added(ip@),
            CommandStage::Done => CommandStageView::Done,
        }
    }
}

/// Ends a command with what it says.
pub open spec fn say(t: Seq<char>) -> (CommandStageView, StepView) {
    (CommandStageView::Done, StepView::stop().print(t))
}

/// Says `t`, tells the API, and waits for its answer.
pub open spec fn tell(t: Seq<char>, path: Seq<char>, body: Seq<char>) -> (
    CommandStageView,
    StepView,
) {
    (
        CommandStageView::Telling,
        StepView::stop().print(t).then_ask(QueryView::CaptureText(post_command(path, body))),
    )
}

/// Asks the API for what is to be shown.
pub open spec fn show(path: Seq<char>) -> (CommandStageView, StepView) {
    (
        CommandStageView::Showing,
        StepView::stop().then_ask(QueryView::CaptureText(get_command(path))),
    )
}

/// How a command of the shell begins.
pub open spec fn command_start(cfg: ConfigView, c: ShellCommandView) -> (
    CommandStageView,
    StepView,
) {
    match c {
        ShellCommandView::Status => show("/api/status"@),
        ShellCommandView::Workers => show("/api/workers"@),
        ShellCommandView::Queue => show("/api/queue"@),
        ShellCommandView::Jobs => show("/api/jobs"@),
        ShellCommandView::PushCompile(file) => (
            CommandStageView::Looking,
            StepView::stop().then_ask(QueryView::Exists(file)),
        ),
        ShellCommandView::SyncGateway => tell(
            "  [*] Syncing network gateway...\n"@,
            "/api/gateway/sync"@,
            "{\"triggered_by\":\"shell\"}"@,
        ),
        ShellCommandView::DownloadQueued => tell(
            "  [*] Processing package download queue...\n"@,
            "/api/queue/process"@,
            "{}"@,
        ),
        ShellCommandView::PushPackages => tell(
            "  [*] Pushing packages to workers...\n"@,
            "/api/packages/push"@,
            "{}"@,
        ),
        ShellCommandView::HostShell => (
            CommandStageView::Timing,
            StepView::stop().print(
                "  [!] Entering host OS shell. This session is logged.\n"@,
            ).then_ask(QueryView::Clock),
        ),
        ShellCommandView::WgStatus => if cfg.wireguard.enabled {
            (
                CommandStageView::Key,
                StepView::stop().then_ask(
                    QueryView::ReadText(config::pubkey_path(cfg.wireguard.interface)),
                ),
            )
        } else {
            say(
                "  [!] WireGuard is not enabled. Set wireguard.enabled = true in smech-farm.toml\n"@,
            )
        },
        ShellCommandView::WgListPeers => if cfg.wireguard.enabled {
            (CommandStageView::Peers, StepView::stop().then_ask(QueryView::Peers))
        } else {
            say("  [!] WireGuard is not enabled.\n"@)
        },
        ShellCommandView::WgAddWorker(name, key) => (
            CommandStageView::Registering,
            StepView::stop().then_ask(QueryView::Register(name, key)),
        ),
    }
}

/// What is done here where the API could not be told.
pub open spec fn direct(c: ShellCommandView) -> (CommandStageView, StepView) {
    match c {
        ShellCommandView::SyncGateway => (
            CommandStageView::Acting,
            StepView::stop().then_ask(QueryView::SyncGateway("shell"@)),
        ),
        ShellCommandView::DownloadQueued => (
            CommandStageView::Acting,
            StepView::stop().then_ask(QueryView::ProcessQueue),
        ),
        ShellCommandView::PushPackages => (
            CommandStageView::Acting,
            StepView::stop().then_ask(QueryView::PushPackages),
        ),
        _ => (CommandStageView::Done, StepView::stop()),
    }
}

/// What is said once that is done.
pub open spec fn acted(c: ShellCommandView) -> (CommandStageView, StepView) {
    match c {
        ShellCommandView::DownloadQueued => say("  [+] Queue processed (direct)\n"@),
        ShellCommandView::PushPackages => say("  [+] Push signal written (direct)\n"@),
        _ => (CommandStageView::Done, StepView::stop()),
    }
}

/// The command that enters the host's shell.
pub open spec fn enter_command(shell: Seq<char>) -> Seq<Seq<char>> {
    work::command("nsenter"@).push("--target"@).push("1"@).push("--mount"@).push("--uts"@).push(
        "--ipc"@,
    ).push("--net"@).push("--pid"@).push("--"@).push(shell)
}

/// How a command of the shell goes on.
pub open spec fn command_step(
    cfg: ConfigView,
    c: ShellCommandView,
    stage: CommandStageView,
    reply: ReplyView,
) -> (CommandStageView, StepView) {
    match (stage, reply) {
        (CommandStageView::Start, _) => command_start(cfg, c),
        (CommandStageView::Showing, ReplyView::Printed(p)) => match printed(p) {
            Some(j) => if json_text::printable(j) {
                say(json_text::laid_out(j).push('\n'))
            } else {
                (
                    CommandStageView::Done,
                    StepView::stop().with(EffectView::Abort("more brackets close than open"@)),
                )
            },
            None => say("  [!] Could not reach API\n"@),
        },
        (CommandStageView::Looking, ReplyView::Found(b)) => match c {
            ShellCommandView::PushCompile(file) => if b {
                (
                    CommandStageView::Reading,
                    StepView::stop().then_ask(QueryView::ReadBytes(file)),
                )
            } else {
                say("  [!] File not found: "@ + file + "\n"@)
            },
            _ => (stage, StepView::stop()),
        },
        (CommandStageView::Reading, ReplyView::Bytes(r)) => match c {
            ShellCommandView::PushCompile(file) => match r {
                Ok(content) => (
                    CommandStageView::Submitting,
                    StepView::stop().then_ask(
                        QueryView::CaptureText(
                            post_command(
                                "/api/jobs/submit"@,
                                jobs::submission(paths::name_of(file), content, "shell"@),
                            ),
                        ),
                    ),
                ),
                Err(e) => say("  [!] Cannot read file: "@ + e + "\n"@),
            },
            _ => (stage, StepView::stop()),
        },
        (CommandStageView::Submitting, ReplyView::Printed(p)) => match printed(p) {
            Some(r) => say("  [+] Job submitted: "@ + text::trimmed(r) + "\n"@),
            None => say("  [!] Could not submit job\n"@),
        },
        (CommandStageView::Telling, ReplyView::Printed(p)) => match told(c, p) {
            Some(r) => say("  [+] "@ + text::trimmed(r) + "\n"@),
            None => direct(c),
        },
        (CommandStageView::Acting, ReplyView::Finished) => acted(c),
        (CommandStageView::Timing, ReplyView::Time(t)) => (
            CommandStageView::Opening,
            StepView::stop().with(EffectView::LogAccess(ACCESS_BY@, t, ACCESS_NOTE@)).then_ask(
                QueryView::Env("HOST_SHELL"@),
            ),
        ),
        (CommandStageView::Opening, ReplyView::Text(t)) => {
            let shell = match t {
                Some(s) => s,
                None => "/bin/bash"@,
            };
            (
                CommandStageView::Done,
                StepView::stop().with(
                    EffectView::ExecOr(enter_command(shell), work::command(shell)),
                ),
            )
        },
        (CommandStageView::Key, ReplyView::Text(file)) => (
            CommandStageView::Done,
            StepView::stop().print(tunnel_text(cfg.wireguard, file)).exec(
                work::command("wg"@).push("show"@).push(cfg.wireguard.interface),
            ),
        ),
        (CommandStageView::Peers, ReplyView::Peers(rows)) => (
            CommandStageView::Done,
            peers_step(rows),
        ),
        (CommandStageView::Registering, ReplyView::Registered(given)) => match given {
            Ok(ip) => (
                CommandStageView::Added(ip),
                StepView::stop().then_ask(
                    QueryView::ReadText(config::pubkey_path(cfg.wireguard.interface)),
                ),
            ),
            Err(e) => say("  [!] Failed to register worker: "@ + e + "\n"@),
        },
        (CommandStageView::Added(ip), ReplyView::Text(file)) => match c {
            ShellCommandView::WgAddWorker(name, _) => say(
                added_text(cfg.wireguard, name, ip, file),
            ),
            _ => (stage, StepView::stop()),
        },
        (s, _) => (s, StepView::stop()),
    }
}

fn end_with(t: String) -> (r: (CommandStage, Step))
    ensures
        (r.0@, r.1@) == say(t@),
{
    (CommandStage::Done, Step::stop().print(t))
}

fn ask_to(t: &str, path: &str, body: &str) -> (r: (CommandStage, Step))
    ensures
        (r.0@, r.1@) == tell(t@, path@, body@),
{
    (
        CommandStage::Telling,
        Step::stop().print(t.to_string()).then_ask(Query::CaptureText(api_post(path, body))),
    )
}

fn ask_for(path: &str) -> (r: (CommandStage, Step))
    ensures
        (r.0@, r.1@) == show(path@),
{
    (CommandStage::Showing, Step::stop().then_ask(Query::CaptureText(api_get(path))))
}

fn start_command(cfg: &Config, c: &ShellCommand) -> (r: (CommandStage, Step))
    ensures
        (r.0@, r.1@) == command_start(cfg@, c@),
{
    match c {
        ShellCommand::Status => ask_for("/api/status"),
        ShellCommand::Workers => ask_for("/api/workers"),
        ShellCommand::Queue => ask_for("/api/queue"),
        ShellCommand::Jobs => ask_for("/api/jobs"),
        ShellCommand::PushCompile(file) => (
            CommandStage::Looking,
            Step::stop().then_ask(Query::Exists(file.as_str().to_string())),
        ),
        ShellCommand::SyncGateway => ask_to(
            "  [*] Syncing network gateway...\n",
            "/api/gateway/sync",
            "{\"triggered_by\":\"shell\"}",
        ),
        ShellCommand::DownloadQueued => ask_to(
            "  [*] Processing package download queue...\n",
            "/api/queue/process",
            "{}",
        ),
        ShellCommand::PushPackages => ask_to(
            "  [*] Pushing packages to workers...\n",
            "/api/packages/push",
            "{}",
        ),
        ShellCommand::HostShell => (
            CommandStage::Timing,
            Step::stop().print(
                "  [!] Entering host OS shell. This session is logged.\n".to_string(),
            ).then_ask(Query::Clock),
        ),
        ShellCommand::WgStatus => {
            if cfg.wireguard.enabled {
                (
                    CommandStage::Key,
                    Step::stop().then_ask(Query::ReadText(wg_pubkey_path(&cfg.wireguard))),
                )
            } else {
                end_with(
                    "  [!] WireGuard is not enabled. Set wireguard.enabled = true in smech-farm.toml\n".to_string(),
                )
            }
        },
        ShellCommand::WgListPeers => {
            if cfg.wireguard.enabled {
                (CommandStage::Peers, Step::stop().then_ask(Query::Peers))
            } else {
                end_with("  [!] WireGuard is not enabled.\n".to_string())
            }
        },
        ShellCommand::WgAddWorker(name, key) => (
            CommandStage::Registering,
            Step::stop().then_ask(
                Query::Register(name.as_str().to_string(), key.as_str().to_string()),
            ),
        ),
    }
}

fn act(c: &ShellCommand) -> (r: (CommandStage, Step))
    ensures
        (r.0@, r.1@) == direct(c@),
{
    match c {
        ShellCommand::SyncGateway => (
            CommandStage::Acting,
            Step::stop().then_ask(Query::SyncGateway("shell".to_string())),
        ),
        ShellCommand::DownloadQueued => (
            CommandStage::Acting,
            Step::stop().then_ask(Query::ProcessQueue),
        ),
        ShellCommand::PushPackages => (
            CommandStage::Acting,
            Step::stop().then_ask(Query::PushPackages),
        ),
        _ => (CommandStage::Done, Step::stop()),
    }
}

fn after_acting(c: &ShellCommand) -> (r: (CommandStage, Step))
    ensures
        (r.0@, r.1@) == acted(c@),
{
    match c {
        ShellCommand::DownloadQueued => end_with("  [+] Queue processed (direct)\n".to_string()),
        ShellCommand::PushPackages => end_with("  [+] Push signal written (direct)\n".to_string()),
        _ => (CommandStage::Done, Step::stop()),
    }
}

fn show_answer(p: Option<Printed>) -> (r: (CommandStage, Step))
    ensures
        forall|cfg: ConfigView, c: ShellCommandView|
            (r.0@, r.1@) == #[trigger] command_step(
                cfg,
                c,
                CommandStageView::Showing,
                ReplyView::Printed(records::opt_view(p)),
            ),
{
    match api_output(p) {
        Some(j) => {
            if pretty_printable(j.as_str()) {
                end_with(pretty_print_json(j.as_str()))
            } else {
                (
                    CommandStage::Done,
                    Step::stop().with(Effect::Abort("more brackets close than open".to_string())),
                )
            }
        },
        None => end_with("  [!] Could not reach API\n".to_string()),
    }
}

fn open_shell(t: Option<String>) -> (r: Step)
    ensures
        forall|cfg: ConfigView, c: ShellCommandView|
            (CommandStageView::Done, r@) == #[trigger] command_step(
                cfg,
                c,
                CommandStageView::Opening,
                ReplyView::Text(records::opt_text(t)),
            ),
{
    let shell = match t {
        Some(s) => s,
        None => "/bin/bash".to_string(),
    };
    let enter = Cmd::new("nsenter").arg("--target").arg("1").arg("--mount").arg("--uts").arg(
        "--ipc",
    ).arg("--net").arg("--pid").arg("--").arg(shell.as_str());
    Step::stop().with(Effect::ExecOr(enter, Cmd::new(shell.as_str())))
}

/// How a command of the shell goes on.
pub fn run_command(cfg: &Config, c: &ShellCommand, stage: CommandStage, reply: Reply) -> (r: (
    CommandStage,
    Step,
))
    ensures
        (r.0@, r.1@) == command_step(cfg@, c@, stage@, reply@),
{
    match (stage, reply) {
        (CommandStage::Start, _) => start_command(cfg, c),
        (CommandStage::Showing, Reply::Printed(p)) => show_answer(p),
        (CommandStage::Looking, Reply::Found(b)) => match c {
            ShellCommand::PushCompile(file) => {
                if b {
                    (
                        CommandStage::Reading,
                        Step::stop().then_ask(Query::ReadBytes(file.as_str().to_string())),
                    )
                } else {
                    end_with(
                        "  [!] File not found: ".to_string().concat(file.as_str()).concat("\n"),
                    )
                }
            },
            _ => (CommandStage::Looking, Step::stop()),
        },
        (CommandStage::Reading, Reply::Bytes(b)) => match c {
            ShellCommand::PushCompile(file) => match b {
                Ok(content) => {
                    let body = submit_body(file_name(file.as_str()).as_str(), &content, "shell");
                    (
                        CommandStage::Submitting,
                        Step::stop().then_ask(
                            Query::CaptureText(api_post("/api/jobs/submit", body.as_str())),
                        ),
                    )
                },
                Err(e) => end_with(
                    "  [!] Cannot read file: ".to_string().concat(e.as_str()).concat("\n"),
                ),
            },
            _ => (CommandStage::Reading, Step::stop()),
        },
        (CommandStage::Submitting, Reply::Printed(p)) => match api_output(p) {
            Some(r) => end_with(
                "  [+] Job submitted: ".to_string().concat(trim(r.as_str())).concat("\n"),
            ),
            None => end_with("  [!] Could not submit job\n".to_string()),
        },
        (CommandStage::Telling, Reply::Printed(p)) => match answer_to(c, p) {
            Some(r) => end_with("  [+] ".to_string().concat(trim(r.as_str())).concat("\n")),
            None => act(c),
        },
        (CommandStage::Acting, Reply::Finished) => after_acting(c),
        (CommandStage::Timing, Reply::Time(t)) => (
            CommandStage::Opening,
            Step::stop().with(
                Effect::LogAccess(ACCESS_BY.to_string(), t, ACCESS_NOTE.to_string()),
            ).then_ask(Query::Env("HOST_SHELL".to_string())),
        ),
        (CommandStage::Opening, Reply::Text(t)) => (CommandStage::Done, open_shell(t)),
        (CommandStage::Key, Reply::Text(file)) => (
            CommandStage::Done,
            Step::stop().print(cmd_wg_status(&cfg.wireguard, &file)).exec(
                Cmd::new("wg").arg("show").arg(cfg.wireguard.interface.as_str()),
            ),
        ),
        (CommandStage::Peers, Reply::Peers(rows)) => (
            CommandStage::Done,
            cmd_wg_list_peers(&rows),
        ),
        (CommandStage::Registering, Reply::Registered(given)) => match given {
            Ok(ip) => (
                CommandStage::Added(ip),
                Step::stop().then_ask(Query::ReadText(wg_pubkey_path(&cfg.wireguard))),
            ),
            Err(e) => end_with(
                "  [!] Failed to register worker: ".to_string().concat(e.as_str()).concat("\n"),
            ),
        },
        (CommandStage::Added(ip), Reply::Text(file)) => match c {
            ShellCommand::WgAddWorker(name, _) => end_with(
                cmd_wg_add_worker(&cfg.wireguard, name.as_str(), ip.as_str(), &file),
            ),
            _ => (CommandStage::Added(ip), Step::stop()),
        },
        (s, _) => (s, Step::stop()),
    }
}

/// The host's shell is not opened before it was noted that it is.
pub proof fn law_host_shell_is_logged(cfg: ConfigView, t: i64, shell: Option<Seq<char>>)
    ensures
        ({
            let c = ShellCommandView::HostShell;
            let a = command_step(cfg, c, CommandStageView::Start, ReplyView::Begin);
            let b = command_step(cfg, c, a.0, ReplyView::Time(t));
            let d = command_step(cfg, c, b.0, ReplyView::Text(shell));
            &&& a.1.ask == Some(QueryView::Clock)
            &&& forall|i: int| 0 <= i < a.1.effects.len() ==> !(a.1.effects[i] is ExecOr)
            &&& b.1.effects == Seq::empty().push(
                EffectView::LogAccess("orchestrator-shell"@, t, "orchestrator-shell-access"@),
            )
            &&& b.1.ask == Some(QueryView::Env("HOST_SHELL"@))
            &&& d.0 is Done
            &&& d.1.effects.len() == 1
            &&& d.1.effects[0] is ExecOr
        }),
{
}

/// The queue is worked off and the workers are told of packages, whatever kept the API from doing
/// so.
pub proof fn law_forced_without_the_api(cfg: ConfigView, p: Option<PrintedView>)
    requires
        answered(p) is None,
    ensures
        command_step(
            cfg,
            ShellCommandView::DownloadQueued,
            CommandStageView::Telling,
            ReplyView::Printed(p),
        ) == (CommandStageView::Acting, StepView::stop().then_ask(QueryView::ProcessQueue)),
        command_step(
            cfg,
            ShellCommandView::PushPackages,
            CommandStageView::Telling,
            ReplyView::Printed(p),
        ) == (CommandStageView::Acting, StepView::stop().then_ask(QueryView::PushPackages)),
{
}

/// To every other command, what was printed is the answer, whether or not the asking succeeded.
pub proof fn law_output_is_the_answer(
    cfg: ConfigView,
    c: ShellCommandView,
    stage: CommandStageView,
    text: Option<Seq<char>>,
    a: bool,
    b: bool,
)
    requires
        !is_forced(c),
    ensures
        command_step(
            cfg,
            c,
            stage,
            ReplyView::Printed(Some(PrintedView { success: a, text })),
        ) == command_step(
            cfg,
            c,
            stage,
            ReplyView::Printed(Some(PrintedView { success: b, text })),
        ),
{
}

/// Keys of ASCII characters are always shown, and at most so much of them.
pub proof fn law_keys_are_shown(key: Seq<char>, n: nat)
    requires
        forall|i: int| 0 <= i < key.len() ==> (#[trigger] key[i] as int) < 0x80,
    ensures
        byte_prefix(key, n) == Some(
            if key.len() <= n {
                key
            } else {
                key.take(n as int)
            },
        ),
    decreases key.len(),
{
    if n == 0 || key.len() == 0 {
        assert(key.take(0) =~= Seq::<char>::empty());
        if key.len() == 0 {
            assert(key =~= Seq::<char>::empty());
        }
    } else {
        let rest = key.drop_first();
        assert forall|i: int| 0 <= i < rest.len() implies (#[trigger] rest[i] as int) < 0x80 by {
            assert(rest[i] == key[i + 1]);
        }
        law_keys_are_shown(rest, (n - 1) as nat);
        if key.len() <= n {
            assert(Seq::empty().push(key[0]) + rest =~= key);
        } else {
            assert(Seq::empty().push(key[0]) + rest.take(n - 1) =~= key.take(n as int));
        }
    }
}

/// How many answers a command of the shell can still need.
pub open spec fn rank(s: CommandStageView) -> nat {
    match s {
        CommandStageView::Done => 0,
        CommandStageView::Start => 4,
        CommandStageView::Looking => 3,
        CommandStageView::Reading | CommandStageView::Telling | CommandStageView::Timing
        | CommandStageView::Registering => 2,
        _ => 1,
    }
}

/// Every command of the shell comes to an end: each step leads nearer to it, and asks something
/// unless it is there.
pub proof fn law_command_ends(
    cfg: ConfigView,
    c: ShellCommandView,
    stage: CommandStageView,
    reply: ReplyView,
    next: ReplyView,
)
    requires
        rank(command_step(cfg, c, stage, reply).0) < rank(stage),
        stage is Start || reachable(c, stage),
    ensures
        ({
            let x = command_step(cfg, c, stage, reply);
            &&& reachable(c, x.0)
            &&& x.0 is Done <==> x.1.ask is None
            &&& x.1.ask matches Some(q) ==> work::fits(q, next) ==> rank(
                command_step(cfg, c, x.0, next).0,
            ) < rank(x.0)
        }),
{
    lemma_peers_step_asks_nothing(cfg, c, stage, reply);
    if let Some(q) = command_step(cfg, c, stage, reply).1.ask {
        lemma_peers_step_asks_nothing(cfg, c, command_step(cfg, c, stage, reply).0, next);
    }
}

/// Whether a command of the shell can be in a stage.
pub open spec fn reachable(c: ShellCommandView, s: CommandStageView) -> bool {
    match s {
        CommandStageView::Looking | CommandStageView::Reading | CommandStageView::Submitting => c
            is PushCompile,
        CommandStageView::Telling | CommandStageView::Acting => c is SyncGateway || c
            is DownloadQueued || c is PushPackages,
        CommandStageView::Added(_) | CommandStageView::Registering => c is WgAddWorker,
        CommandStageView::Start => false,
        _ => true,
    }
}

proof fn lemma_peer_rows_ask(rows: Seq<PeerRowView>, order: Seq<int>, i: int, step: StepView)
    requires
        step.ask is None,
    ensures
        peer_rows(rows, order, i, step).ask is None,
    decreases order.len() - i,
{
    if i < order.len() {
        match byte_prefix(rows[order[i]].public_key, KEY_SHOWN as nat) {
            Some(key) => {
                lemma_peer_rows_ask(rows, order, i + 1, step.print(peer_row(rows[order[i]], key)));
            },
            None => {},
        }
    }
}

proof fn lemma_peers_step_asks_nothing(
    cfg: ConfigView,
    c: ShellCommandView,
    stage: CommandStageView,
    reply: ReplyView,
)
    ensures
        stage is Peers && reply is Peers ==> command_step(cfg, c, stage, reply).1.ask is None,
{
    if let ReplyView::Peers(rows) = reply {
        lemma_peer_rows_ask(rows, api::by_age(rows), 0, StepView::stop().print(peers_head()));
    }
}

/// The API of this machine is asked, and told, with `curl`.
pub proof fn law_api_commands(path: Seq<char>, body: Seq<char>)
    ensures
        get_command(path) == seq!["curl"@, "-sf"@, "http://127.0.0.1:7734"@ + path],
        post_command(path, body) == seq![
            "curl"@,
            "-sf"@,
            "-X"@,
            "POST"@,
            "-H"@,
            "Content-Type: application/json"@,
            "-d"@,
            body,
            "http://127.0.0.1:7734"@ + path,
        ],
{
    assert(get_command(path) =~= seq!["curl"@, "-sf"@, "http://127.0.0.1:7734"@ + path]);
    assert(post_command(path, body) =~= seq![
        "curl"@,
        "-sf"@,
        "-X"@,
        "POST"@,
        "-H"@,
        "Content-Type: application/json"@,
        "-d"@,
        body,
        "http://127.0.0.1:7734"@ + path,
    ]);
}

/// What was answered is what was printed; to the two commands that force something, only where the
/// asking succeeded.
pub proof fn law_answers(c: ShellCommandView, text: Option<Seq<char>>, success: bool)
    ensures
        printed(Some(PrintedView { success, text })) == text,
        printed(None) is None,
        answered(Some(PrintedView { success: true, text })) == text,
        answered(Some(PrintedView { success: false, text })) is None,
        answered(None) is None,
        (c is DownloadQueued || c is PushPackages) && !success ==> told(
            c,
            Some(PrintedView { success, text }),
        ) is None,
        !(c is DownloadQueued || c is PushPackages) || success ==> told(
            c,
            Some(PrintedView { success, text }),
        ) == text,
        told(c, None) is None,
{
}

/// The first bytes of a text are the text whose bytes are the first bytes of its own; there is none
/// where a character would be cut.
pub proof fn law_first_bytes(s: Seq<char>, n: nat, k: int)
    ensures
        ({
            let bytes = vstd::utf8::encode_utf8(s);
            match byte_prefix(s, n) {
                Some(p) => text::begins(s, p) && vstd::utf8::encode_utf8(p) == if bytes.len() <= n {
                    bytes
                } else {
                    bytes.take(n as int)
                },
                None => bytes.len() > n && (0 <= k <= s.len() ==> vstd::utf8::encode_utf8(
                    s.take(k),
                ).len() != n),
            }
        }),
    decreases s.len(),
{
    let bytes = vstd::utf8::encode_utf8(s);
    if s.len() == 0 {
        assert(s.take(0) =~= Seq::empty());
    } else if n == 0 {
        assert(bytes.take(0) =~= Seq::<u8>::empty());
        assert(s.take(0) =~= Seq::empty());
        lemma_byte_len(s[0]);
    } else {
        let c = s[0];
        let rest = s.drop_first();
        lemma_byte_len(c);
        let head = vstd::utf8::encode_scalar(c as u32);
        if byte_len(c) > n {
            if 0 < k <= s.len() {
                assert(s.take(k)[0] == c);
                assert(vstd::utf8::encode_utf8(s.take(k)).len() >= head.len());
            } else if k == 0 {
                assert(s.take(0).len() == 0);
            }
        } else {
            let m = (n - byte_len(c)) as nat;
            law_first_bytes(rest, m, k - 1);
            if 0 < k <= s.len() {
                assert(s.take(k).drop_first() =~= rest.take(k - 1));
                assert(s.take(k)[0] == c);
            } else if k == 0 {
                assert(s.take(0).len() == 0);
            }
            match byte_prefix(rest, m) {
                Some(q) => {
                    let p = Seq::empty().push(c) + q;
                    assert(p.drop_first() =~= q);
                    assert(p[0] == c);
                    assert(s.take(p.len() as int) =~= p) by {
                        assert forall|i: int| 0 <= i < q.len() implies s[i + 1] == q[i] by {
                            assert(rest.take(q.len() as int)[i] == q[i]);
                        }
                    }
                    let tail = vstd::utf8::encode_utf8(rest);
                    assert(bytes == head + tail);
                    if bytes.len() > n {
                        assert(bytes.take(n as int) =~= head + tail.take(m as int));
                    }
                },
                None => {},
            }
        }
    }
}

proof fn lemma_byte_len(c: char)
    ensures
        vstd::utf8::encode_scalar(c as u32).len() == byte_len(c),
{
}

/// A row of the list of peers holds the name, the address and the beginning of the key, in columns.
pub proof fn law_peer_row(p: PeerRowView, key: Seq<char>)
    ensures
        RULE@ == "  \u{2500}\u{2500}\u{2500}\u{2500}\u{2500}\u{2500}\u{2500}\u{2500}\u{2500}\u{2500}\u{2500}\u{2500}\u{2500}\u{2500}\u{2500}\u{2500}\u{2500}\u{2500}\u{2500}\u{2500}\u{2500}\u{2500}\u{2500}\u{2500}\u{2500}\u{2500}\u{2500}\u{2500}\u{2500}\u{2500}\u{2500}\u{2500}\u{2500}\u{2500}\u{2500}\u{2500}\u{2500}\u{2500}\u{2500}\u{2500}\u{2500}\n"@,
        peer_row(p, key) == "  "@ + text::padded(p.worker_name, 20) + " "@ + text::padded(
            p.assigned_ip,
            16,
        ) + " "@ + key + "\n"@,
        peers_head() == "  "@ + text::padded("Name"@, 20) + " "@ + text::padded("IP"@, 16)
            + " Public Key\n  "@ + text::times('-', 80) + "\n"@,
{
}

proof fn lemma_peer_rows(
    rows: Seq<PeerRowView>,
    order: Seq<int>,
    i: int,
    step: StepView,
    j: int,
)
    requires
        0 <= i <= order.len(),
        forall|x: int| 0 <= x < order.len() ==> 0 <= #[trigger] order[x] < rows.len(),
        forall|x: int|
            0 <= x < rows.len() ==> byte_prefix((#[trigger] rows[x]).public_key, 32) is Some,
    ensures
        ({
            let r = peer_rows(rows, order, i, step);
            &&& r.ask == step.ask
            &&& r.effects.len() == step.effects.len() + order.len() - i
            &&& forall|x: int| 0 <= x < step.effects.len() ==> r.effects[x] == #[trigger] step.effects[x]
            &&& i <= j < order.len() ==> r.effects[step.effects.len() + j - i] == EffectView::Print(
                peer_row(rows[order[j]], byte_prefix(rows[order[j]].public_key, 32)->0),
            )
        }),
    decreases order.len() - i,
{
    if i < order.len() {
        assert(0 <= order[i] < rows.len());
        let row = rows[order[i]];
        assert(byte_prefix(row.public_key, 32) is Some);
        let next = step.print(peer_row(row, byte_prefix(row.public_key, 32)->0));
        lemma_peer_rows(rows, order, i + 1, next, j);
        let r = peer_rows(rows, order, i, step);
        assert(r == peer_rows(rows, order, i + 1, next));
        assert(r.effects[step.effects.len() as int] == next.effects[step.effects.len() as int]);
        assert forall|x: int| 0 <= x < step.effects.len() implies r.effects[x]
            == #[trigger] step.effects[x] by {
            assert(r.effects[x] == next.effects[x]);
        }
    }
}

/// The list of peers has a head and then a row for each peer, the oldest first, with the first
/// thirty-two bytes of its key; without peers it says so.
pub proof fn law_peer_list(rows: Seq<PeerRowView>, i: int)
    requires
        rows.len() > 0 ==> 0 <= i < rows.len(),
        forall|x: int|
            0 <= x < rows.len() ==> byte_prefix((#[trigger] rows[x]).public_key, 32) is Some,
    ensures
        rows.len() == 0 ==> peers_step(rows) == StepView::stop().print(
            "  No WireGuard peers registered.\n"@,
        ),
        rows.len() > 0 ==> {
            let r = peers_step(rows);
            let row = rows[api::by_age(rows)[i]];
            &&& r.ask is None
            &&& r.effects.len() == rows.len() + 1
            &&& r.effects[0] == EffectView::Print(peers_head())
            &&& r.effects[i + 1] == EffectView::Print(
                peer_row(row, byte_prefix(row.public_key, 32)->0),
            )
        },
{
    if rows.len() > 0 {
        let order = api::by_age(rows);
        order::law_orders(Seq::empty(), api::added_times(rows));
        order::law_ordering(rows.len(), rows.len(), order::by_number(api::added_times(rows)));
        let head = StepView::stop().print(peers_head());
        assert forall|x: int| 0 <= x < order.len() implies 0 <= #[trigger] order[x] < rows.len() by {
        }
        lemma_peer_rows(rows, order, 0, head, i);
        assert(peers_step(rows).effects[0] == head.effects[0]);
    }
}

/// What is said of a worker that was added: what it needs for its end of the tunnel.
pub proof fn law_added_text(
    wg: WireGuardConfigView,
    name: Seq<char>,
    ip: Seq<char>,
    key: Seq<char>,
    file: Option<Seq<char>>,
)
    requires
        wireguard::server_pubkey(file) == key,
    ensures
        added_text(wg, name, ip, file) == "  [+] Worker '"@ + name
            + "' registered\n  Assigned WireGuard IP : "@ + ip + "\n  Server public key     : "@ + key
            + "\n  Server endpoint       : "@ + wg.server_endpoint
            + "\n  Server WireGuard IP   : "@ + api::server_ip(wg)
            + "\n\n  Worker WireGuard config:\n"@ + RULE@ + "  [Interface]\n  Address    = "@ + ip
            + "/32\n  PrivateKey = <worker private key here>\n  DNS        = "@ + api::server_ip(wg)
            + "\n\n  [Peer]\n  PublicKey  = "@ + key + "\n  Endpoint   = "@ + wg.server_endpoint
            + "\n  AllowedIPs = "@ + api::net_of(api::server_ip(wg))
            + "\n  PersistentKeepalive = 25\n"@ + RULE@,
        tunnel_text(wg, file) == "  WireGuard interface : "@ + wg.interface
            + "\n  Server WireGuard IP : "@ + wg.server_wg_ip + "\n  Listen port         : "@
            + text::int_text(wg.listen_port as int) + "\n  Server endpoint     : "@
            + wg.server_endpoint + "\n  Server public key   : "@ + key + "\n\n"@,
{
}

/// What is asked of the API to be shown, and how its answer is.
pub proof fn law_showing(cfg: ConfigView, c: ShellCommandView, json: Seq<char>, success: bool)
    requires
        c is Status || c is Workers || c is Queue || c is Jobs,
    ensures
        ({
            let path = if c is Status {
                "/api/status"@
            } else if c is Workers {
                "/api/workers"@
            } else if c is Queue {
                "/api/queue"@
            } else {
                "/api/jobs"@
            };
            let a = command_step(cfg, c, CommandStageView::Start, ReplyView::Begin);
            let out = PrintedView { success, text: Some(json) };
            let b = command_step(cfg, c, a.0, ReplyView::Printed(Some(out)));
            let none = command_step(cfg, c, a.0, ReplyView::Printed(None));
            &&& a.1 == StepView::stop().then_ask(QueryView::CaptureText(get_command(path)))
            &&& json_text::printable(json) ==> b == (
                CommandStageView::Done,
                StepView::stop().print(json_text::laid_out(json).push('\n')),
            )
            &&& !json_text::printable(json) ==> b == (
                CommandStageView::Done,
                StepView::stop().with(EffectView::Abort("more brackets close than open"@)),
            )
            &&& none == (
                CommandStageView::Done,
                StepView::stop().print("  [!] Could not reach API\n"@),
            )
        }),
{
}

/// A file is looked for, read and submitted by the shell under its own name.
pub proof fn law_pushing(
    cfg: ConfigView,
    file: Seq<char>,
    content: Seq<u8>,
    said: Seq<char>,
    success: bool,
)
    ensures
        ({
            let c = ShellCommandView::PushCompile(file);
            let a = command_step(cfg, c, CommandStageView::Start, ReplyView::Begin);
            let b = command_step(cfg, c, a.0, ReplyView::Found(true));
            let d = command_step(cfg, c, b.0, ReplyView::Bytes(Ok(content)));
            let out = PrintedView { success, text: Some(said) };
            let e = command_step(cfg, c, d.0, ReplyView::Printed(Some(out)));
            let none = command_step(cfg, c, d.0, ReplyView::Printed(None));
            let missing = command_step(cfg, c, a.0, ReplyView::Found(false));
            let unread = command_step(cfg, c, b.0, ReplyView::Bytes(Err(said)));
            &&& a.1 == StepView::stop().then_ask(QueryView::Exists(file))
            &&& b.1 == StepView::stop().then_ask(QueryView::ReadBytes(file))
            &&& d.1 == StepView::stop().then_ask(
                QueryView::CaptureText(
                    post_command(
                        "/api/jobs/submit"@,
                        jobs::submission(paths::name_of(file), content, "shell"@),
                    ),
                ),
            )
            &&& e == (
                CommandStageView::Done,
                StepView::stop().print("  [+] Job submitted: "@ + text::trimmed(said) + "\n"@),
            )
            &&& none == (
                CommandStageView::Done,
                StepView::stop().print("  [!] Could not submit job\n"@),
            )
            &&& missing == (
                CommandStageView::Done,
                StepView::stop().print("  [!] File not found: "@ + file + "\n"@),
            )
            &&& unread == (
                CommandStageView::Done,
                StepView::stop().print("  [!] Cannot read file: "@ + said + "\n"@),
            )
        }),
{
}

/// What the API is told, what is said of its answer, and what is done here where it gave none.
pub proof fn law_telling(cfg: ConfigView, said: Seq<char>)
    ensures
        ({
            let c = ShellCommandView::SyncGateway;
            let a = command_step(cfg, c, CommandStageView::Start, ReplyView::Begin);
            let none = command_step(cfg, c, a.0, ReplyView::Printed(None));
            &&& a.1 == StepView::stop().print("  [*] Syncing network gateway...\n"@).then_ask(
                QueryView::CaptureText(
                    post_command("/api/gateway/sync"@, "{\"triggered_by\":\"shell\"}"@),
                ),
            )
            &&& none.1 == StepView::stop().then_ask(QueryView::SyncGateway("shell"@))
            &&& command_step(cfg, c, none.0, ReplyView::Finished) == (
                CommandStageView::Done,
                StepView::stop(),
            )
        }),
        ({
            let c = ShellCommandView::DownloadQueued;
            let a = command_step(cfg, c, CommandStageView::Start, ReplyView::Begin);
            let none = command_step(cfg, c, a.0, ReplyView::Printed(None));
            &&& a.1 == StepView::stop().print(
                "  [*] Processing package download queue...\n"@,
            ).then_ask(QueryView::CaptureText(post_command("/api/queue/process"@, "{}"@)))
            &&& none.1 == StepView::stop().then_ask(QueryView::ProcessQueue)
            &&& command_step(cfg, c, none.0, ReplyView::Finished) == (
                CommandStageView::Done,
                StepView::stop().print("  [+] Queue processed (direct)\n"@),
            )
        }),
        ({
            let c = ShellCommandView::PushPackages;
            let a = command_step(cfg, c, CommandStageView::Start, ReplyView::Begin);
            let none = command_step(cfg, c, a.0, ReplyView::Printed(None));
            &&& a.1 == StepView::stop().print("  [*] Pushing packages to workers...\n"@).then_ask(
                QueryView::CaptureText(post_command("/api/packages/push"@, "{}"@)),
            )
            &&& none.1 == StepView::stop().then_ask(QueryView::PushPackages)
            &&& command_step(cfg, c, none.0, ReplyView::Finished) == (
                CommandStageView::Done,
                StepView::stop().print("  [+] Push signal written (direct)\n"@),
            )
        }),
        forall|c: ShellCommandView|
            #![trigger command_step(
                cfg,
                c,
                CommandStageView::Telling,
                ReplyView::Printed(Some(PrintedView { success: true, text: Some(said) })),
            )]
            command_step(
                cfg,
                c,
                CommandStageView::Telling,
                ReplyView::Printed(Some(PrintedView { success: true, text: Some(said) })),
            ) == (
                CommandStageView::Done,
                StepView::stop().print("  [+] "@ + text::trimmed(said) + "\n"@),
            ),
{
}

/// The host's shell is announced, logged and then opened: the one that the environment names, else
/// the usual one, inside the host or, where that cannot be done, here.
pub proof fn law_host_shell_run(cfg: ConfigView, t: i64, shell: Seq<char>)
    ensures
        ({
            let c = ShellCommandView::HostShell;
            let a = command_step(cfg, c, CommandStageView::Start, ReplyView::Begin);
            let b = command_step(cfg, c, a.0, ReplyView::Time(t));
            let d = command_step(cfg, c, b.0, ReplyView::Text(Some(shell)));
            let usual = command_step(cfg, c, b.0, ReplyView::Text(None));
            &&& a.1 == StepView::stop().print(
                "  [!] Entering host OS shell. This session is logged.\n"@,
            ).then_ask(QueryView::Clock)
            &&& b.1 == StepView::stop().with(
                EffectView::LogAccess("orchestrator-shell"@, t, "orchestrator-shell-access"@),
            ).then_ask(QueryView::Env("HOST_SHELL"@))
            &&& d == (
                CommandStageView::Done,
                StepView::stop().with(
                    EffectView::ExecOr(enter_command(shell), work::command(shell)),
                ),
            )
            &&& usual == (
                CommandStageView::Done,
                StepView::stop().with(
                    EffectView::ExecOr(
                        enter_command("/bin/bash"@),
                        work::command("/bin/bash"@),
                    ),
                ),
            )
        }),
        enter_command(shell) == seq![
            "nsenter"@,
            "--target"@,
            "1"@,
            "--mount"@,
            "--uts"@,
            "--ipc"@,
            "--net"@,
            "--pid"@,
            "--"@,
            shell,
        ],
{
    assert(enter_command(shell) =~= seq![
        "nsenter"@,
        "--target"@,
        "1"@,
        "--mount"@,
        "--uts"@,
        "--ipc"@,
        "--net"@,
        "--pid"@,
        "--"@,
        shell,
    ]);
}

/// What is shown of the tunnel, and how a worker is added to it by hand; where it is off, both lists
/// say so.
pub proof fn law_tunnel_commands(
    cfg: ConfigView,
    name: Seq<char>,
    key: Seq<char>,
    ip: Seq<char>,
    why: Seq<char>,
    file: Option<Seq<char>>,
    rows: Seq<PeerRowView>,
)
    ensures
        ({
            let public = "/etc/smech-farm/"@ + cfg.wireguard.interface + ".pub"@;
            let c = ShellCommandView::WgStatus;
            let a = command_step(cfg, c, CommandStageView::Start, ReplyView::Begin);
            let b = command_step(cfg, c, a.0, ReplyView::Text(file));
            &&& cfg.wireguard.enabled ==> a.1 == StepView::stop().then_ask(
                QueryView::ReadText(public),
            ) && b == (
                CommandStageView::Done,
                StepView::stop().print(tunnel_text(cfg.wireguard, file)).exec(
                    work::command("wg"@).push("show"@).push(cfg.wireguard.interface),
                ),
            )
            &&& !cfg.wireguard.enabled ==> a == (
                CommandStageView::Done,
                StepView::stop().print(
                    "  [!] WireGuard is not enabled. Set wireguard.enabled = true in smech-farm.toml\n"@,
                ),
            )
        }),
        ({
            let c = ShellCommandView::WgListPeers;
            let a = command_step(cfg, c, CommandStageView::Start, ReplyView::Begin);
            let b = command_step(cfg, c, a.0, ReplyView::Peers(rows));
            &&& cfg.wireguard.enabled ==> a.1 == StepView::stop().then_ask(QueryView::Peers) && b == (
                CommandStageView::Done,
                peers_step(rows),
            )
            &&& !cfg.wireguard.enabled ==> a == (
                CommandStageView::Done,
                StepView::stop().print("  [!] WireGuard is not enabled.\n"@),
            )
        }),
        ({
            let public = "/etc/smech-farm/"@ + cfg.wireguard.interface + ".pub"@;
            let c = ShellCommandView::WgAddWorker(name, key);
            let a = command_step(cfg, c, CommandStageView::Start, ReplyView::Begin);
            let b = command_step(cfg, c, a.0, ReplyView::Registered(Ok(ip)));
            let d = command_step(cfg, c, b.0, ReplyView::Text(file));
            let no = command_step(cfg, c, a.0, ReplyView::Registered(Err(why)));
            &&& a.1 == StepView::stop().then_ask(QueryView::Register(name, key))
            &&& b.1 == StepView::stop().then_ask(QueryView::ReadText(public))
            &&& d == (
                CommandStageView::Done,
                StepView::stop().print(added_text(cfg.wireguard, name, ip, file)),
            )
            &&& no == (
                CommandStageView::Done,
                StepView::stop().print("  [!] Failed to register worker: "@ + why + "\n"@),
            )
        }),
{
}

/// Where a reply is not of the kind that was asked for, nothing is done and the same is awaited; once all
/// is done, nothing changes any more.
pub proof fn law_other_replies_change_nothing(cfg: ConfigView, c: ShellCommandView, stage: CommandStageView, reply: ReplyView)
    ensures
        stage is Showing && !(reply is Printed) ==> command_step(cfg, c, stage, reply) == (stage, StepView::stop()),
        stage is Looking && !(reply is Found && c is PushCompile) ==> command_step(cfg, c, stage, reply) == (stage, StepView::stop()),
        stage is Reading && !(reply is Bytes && c is PushCompile) ==> command_step(cfg, c, stage, reply) == (stage, StepView::stop()),
        stage is Submitting && !(reply is Printed) ==> command_step(cfg, c, stage, reply) == (stage, StepView::stop()),
        stage is Telling && !(reply is Printed) ==> command_step(cfg, c, stage, reply) == (stage, StepView::stop()),
        stage is Acting && !(reply is Finished) ==> command_step(cfg, c, stage, reply) == (stage, StepView::stop()),
        stage is Timing && !(reply is Time) ==> command_step(cfg, c, stage, reply) == (stage, StepView::stop()),
        stage is Opening && !(reply is Text) ==> command_step(cfg, c, stage, reply) == (stage, StepView::stop()),
        stage is Key && !(reply is Text) ==> command_step(cfg, c, stage, reply) == (stage, StepView::stop()),
        stage is Peers && !(reply is Peers) ==> command_step(cfg, c, stage, reply) == (stage, StepView::stop()),
        stage is Registering && !(reply is Registered) ==> command_step(cfg, c, stage, reply) == (stage, StepView::stop()),
        stage is Added && !(reply is Text && c is WgAddWorker) ==> command_step(cfg, c, stage, reply) == (stage, StepView::stop()),
        stage is Done ==> command_step(cfg, c, stage, reply) == (stage, StepView::stop()),
{
}

proof fn lemma_rows_stop(rows: Seq<PeerRowView>, order: Seq<int>, i: int, step: StepView, j: int)
    requires
        0 <= i <= j < order.len(),
        forall|x: int|
            i <= x < j ==> byte_prefix(rows[#[trigger] order[x]].public_key, 32) is Some,
        byte_prefix(rows[order[j]].public_key, 32) is None,
    ensures
        ({
            let r = peer_rows(rows, order, i, step);
            &&& r.ask == step.ask
            &&& r.effects.len() == step.effects.len() + j - i + 1
            &&& r.effects.last() == EffectView::Abort("a key cannot be cut inside a character"@)
        }),
    decreases j - i,
{
    if i < j {
        assert(byte_prefix(rows[order[i]].public_key, 32) is Some);
        let row = rows[order[i]];
        let next = step.print(peer_row(row, byte_prefix(row.public_key, 32)->0));
        lemma_rows_stop(rows, order, i + 1, next, j);
    }
}

/// Where a key would be cut inside a character, the list ends before that peer's row, and so does
/// the program.
pub proof fn law_peer_list_stops(rows: Seq<PeerRowView>, j: int)
    requires
        0 <= j < rows.len(),
        forall|x: int|
            0 <= x < j ==> byte_prefix(rows[#[trigger] api::by_age(rows)[x]].public_key, 32) is Some,
        byte_prefix(rows[api::by_age(rows)[j]].public_key, 32) is None,
    ensures
        peers_step(rows).ask is None,
        peers_step(rows).effects.len() == j + 2,
        peers_step(rows).effects.last() == EffectView::Abort(
            "a key cannot be cut inside a character"@,
        ),
{
    order::law_orders(Seq::empty(), api::added_times(rows));
    order::law_ordering(rows.len(), rows.len(), order::by_number(api::added_times(rows)));
    lemma_rows_stop(rows, api::by_age(rows), 0, StepView::stop().print(peers_head()), j);
}

} // verus!
