//! The orchestrator's shell.

use vstd::prelude::*;

use crate::config::{Config, ConfigView};
use crate::text;
use crate::text::{same, splitn, trim};
use crate::webui::VERSION;
use crate::work::{Query, QueryView, Reply, ReplyView, Step, StepView};

verus! {

/// What a line of the shell asks for.
#[derive(Debug, PartialEq, Eq)]
pub enum ShellCommand {
    Status,
    Workers,
    Queue,
    Jobs,
    PushCompile(String),
    SyncGateway,
    DownloadQueued,
    PushPackages,
    HostShell,
    WgStatus,
    WgListPeers,
    WgAddWorker(String, String),
}

pub enum ShellCommandView {
    Status,
    Workers,
    Queue,
    Jobs,
    PushCompile(Seq<char>),
    SyncGateway,
    DownloadQueued,
    PushPackages,
    HostShell,
    WgStatus,
    WgListPeers,
    WgAddWorker(Seq<char>, Seq<char>),
}

impl View for ShellCommand {
    type V = ShellCommandView;

    open spec fn view(&self) -> ShellCommandView {
        match self {
            ShellCommand::Status => ShellCommandView::Status,
            ShellCommand::Workers => ShellCommandView::Workers,
            ShellCommand::Queue => ShellCommandView::Queue,
            ShellCommand::Jobs => ShellCommandView::Jobs,
            ShellCommand::PushCompile(f) => ShellCommandView::PushCompile(f@),
            ShellCommand::SyncGateway => ShellCommandView::SyncGateway,
            ShellCommand::DownloadQueued => ShellCommandView::DownloadQueued,
            ShellCommand::PushPackages => ShellCommandView::PushPackages,
            ShellCommand::HostShell => ShellCommandView::HostShell,
            ShellCommand::WgStatus => ShellCommandView::WgStatus,
            ShellCommand::WgListPeers => ShellCommandView::WgListPeers,
            ShellCommand::WgAddWorker(n, k) => ShellCommandView::WgAddWorker(n@, k@),
        }
    }
}

/// What a line of the shell says.
#[derive(Debug, PartialEq, Eq)]
pub enum ShellInput {
    Nothing,
    Quit,
    Help,
    Clear,
    Run(ShellCommand),
    Unknown,
}

pub enum ShellInputView {
    Nothing,
    Quit,
    Help,
    Clear,
    Run(ShellCommandView),
    Unknown,
}

impl View for ShellInput {
    type V = ShellInputView;

    open spec fn view(&self) -> ShellInputView {
        match self {
            ShellInput::Nothing => ShellInputView::Nothing,
            ShellInput::Quit => ShellInputView::Quit,
            ShellInput::Help => ShellInputView::Help,
            ShellInput::Clear => ShellInputView::Clear,
            ShellInput::Run(c) => ShellInputView::Run(c@),
            ShellInput::Unknown => ShellInputView::Unknown,
        }
    }
}

/// What a line of one word says.
pub open spec fn word_says(w: Seq<char>) -> ShellInputView {
    if w == "exit"@ || w == "quit"@ {
        ShellInputView::Quit
    } else if w == "help"@ {
        ShellInputView::Help
    } else if w == "status"@ {
        ShellInputView::Run(ShellCommandView::Status)
    } else if w == "workers"@ {
        ShellInputView::Run(ShellCommandView::Workers)
    } else if w == "queue"@ {
        ShellInputView::Run(ShellCommandView::Queue)
    } else if w == "jobs"@ {
        ShellInputView::Run(ShellCommandView::Jobs)
    } else if w == "sync-network-gateway"@ {
        ShellInputView::Run(ShellCommandView::SyncGateway)
    } else if w == "download-queued-packages"@ {
        ShellInputView::Run(ShellCommandView::DownloadQueued)
    } else if w == "push-packages"@ {
        ShellInputView::Run(ShellCommandView::PushPackages)
    } else if w == "orchestrator-shell"@ {
        ShellInputView::Run(ShellCommandView::HostShell)
    } else if w == "wg-status"@ {
        ShellInputView::Run(ShellCommandView::WgStatus)
    } else if w == "wg-list-peers"@ {
        ShellInputView::Run(ShellCommandView::WgListPeers)
    } else if w == "clear"@ {
        ShellInputView::Clear
    } else {
        ShellInputView::Unknown
    }
}

/// What a line of the shell says.
pub open spec fn line_says(line: Seq<char>) -> ShellInputView {
    let l = text::trimmed(line);
    let p = text::pieces_at_most(l, " "@, 4);
    if l.len() == 0 {
        ShellInputView::Nothing
    } else if p.len() == 1 {
        word_says(p[0])
    } else if p.len() == 3 && p[0] == "push"@ && p[1] == "compile"@ {
        ShellInputView::Run(ShellCommandView::PushCompile(p[2]))
    } else if p.len() == 3 && p[0] == "wg-add-worker"@ {
        ShellInputView::Run(ShellCommandView::WgAddWorker(p[1], p[2]))
    } else {
        ShellInputView::Unknown
    }
}

fn read_word(w: &str) -> (r: ShellInput)
    ensures
        r@ == word_says(w@),
{
    if same(w, "exit") || same(w, "quit") {
        ShellInput::Quit
    } else if same(w, "help") {
        ShellInput::Help
    } else if same(w, "status") {
        ShellInput::Run(ShellCommand::Status)
    } else if same(w, "workers") {
        ShellInput::Run(ShellCommand::Workers)
    } else if same(w, "queue") {
        ShellInput::Run(ShellCommand::Queue)
    } else if same(w, "jobs") {
        ShellInput::Run(ShellCommand::Jobs)
    } else if same(w, "sync-network-gateway") {
        ShellInput::Run(ShellCommand::SyncGateway)
    } else if same(w, "download-queued-packages") {
        ShellInput::Run(ShellCommand::DownloadQueued)
    } else if same(w, "push-packages") {
        ShellInput::Run(ShellCommand::PushPackages)
    } else if same(w, "orchestrator-shell") {
        ShellInput::Run(ShellCommand::HostShell)
    } else if same(w, "wg-status") {
        ShellInput::Run(ShellCommand::WgStatus)
    } else if same(w, "wg-list-peers") {
        ShellInput::Run(ShellCommand::WgListPeers)
    } else if same(w, "clear") {
        ShellInput::Clear
    } else {
        ShellInput::Unknown
    }
}

/// What a line of the shell says.
pub fn read_line(line: &str) -> (r: ShellInput)
    ensures
        r@ == line_says(line@),
{
    proof {
        reveal_strlit(" ");
    }
    let l = trim(line);
    if l.unicode_len() == 0 {
        return ShellInput::Nothing;
    }
    let p = splitn(l, " ", 4);
    assert(p@.len() == p.deep_view().len());
    if p.len() == 1 {
        read_word(p[0])
    } else if p.len() == 3 && same(p[0], "push") && same(p[1], "compile") {
        ShellInput::Run(ShellCommand::PushCompile(p[2].to_string()))
    } else if p.len() == 3 && same(p[0], "wg-add-worker") {
        ShellInput::Run(ShellCommand::WgAddWorker(p[1].to_string(), p[2].to_string()))
    } else {
        ShellInput::Unknown
    }
}

/// The commands that are always there.
pub const HELP: &'static str = r#"
  push compile <file>        Push a compile job to the farm
  sync-network-gateway       Sync DNS and upstream/downstream connections
  download-queued-packages   Force-process the package download queue
  push-packages              Force-push NFS packages to workers
  orchestrator-shell         Drop into the host OS shell (privileged)
  status                     Show farm status summary
  workers                    List registered workers
  queue                      Show package download queue
  jobs                       Show compile job queue
  clear                      Clear terminal
  help                       Show this help
  exit                       Exit the shell
"#;

/// The commands that are there where the tunnel is on.
pub const HELP_TUNNEL: &'static str = r#"
  wg-status                  Show WireGuard interface status
  wg-list-peers              List registered WireGuard worker peers
  wg-add-worker <name> <pubkey>  Register a new WireGuard worker peer"#;

/// What is said in their place where it is off.
pub const HELP_NO_TUNNEL: &'static str = r#"
  (WireGuard not enabled — set wireguard.enabled = true in smech-farm.toml)"#;

/// The commands of the shell.
pub open spec fn help_text(wg: bool) -> Seq<char> {
    HELP@ + (if wg {
        HELP_TUNNEL@
    } else {
        HELP_NO_TUNNEL@
    }) + "\n\n"@
}

/// The commands of the shell.
pub fn print_help(wg: bool) -> (r: String)
    ensures
        r@ == help_text(wg),
{
    let more = if wg {
        HELP_TUNNEL
    } else {
        HELP_NO_TUNNEL
    };
    HELP.to_string().concat(more).concat("\n\n")
}

/// What the shell waits for.
#[derive(Clone, Copy, Debug, PartialEq, Eq)]
pub enum ShellStage {
    Start,
    /// A line was asked for.
    Reading,
    /// A command is being carried out.
    Running,
    Done,
}

/// Asks for a line, behind what `step` already does.
pub open spec fn prompt(step: StepView) -> (ShellStage, StepView) {
    (ShellStage::Reading, step.print("smech-farm> "@).then_ask(QueryView::Line))
}

/// How the shell goes on.
pub open spec fn shell_step(cfg: ConfigView, stage: ShellStage, reply: ReplyView) -> (
    ShellStage,
    StepView,
) {
    match (stage, reply) {
        (ShellStage::Start, _) => prompt(
            StepView::stop().print(
                "smech-farm v"@ + VERSION@ + " \u{2014} "@ + cfg.farm.name
                    + " shell\nType 'help' for available commands.\n\n"@,
            ),
        ),
        (ShellStage::Reading, ReplyView::Text(t)) => match t {
            None => (ShellStage::Done, StepView::stop()),
            Some(line) => match line_says(line) {
                ShellInputView::Nothing => prompt(StepView::stop()),
                ShellInputView::Quit => (ShellStage::Done, StepView::stop()),
                ShellInputView::Help => prompt(
                    StepView::stop().print(help_text(cfg.wireguard.enabled)),
                ),
                ShellInputView::Clear => prompt(StepView::stop().print("\u{1b}[2J\u{1b}[H"@)),
                ShellInputView::Unknown => prompt(
                    StepView::stop().print(
                        "Unknown command: '"@ + text::trimmed(line) + "'. Type 'help'.\n"@,
                    ),
                ),
                ShellInputView::Run(c) => (
                    ShellStage::Running,
                    StepView::stop().then_ask(QueryView::Command(c)),
                ),
            },
        },
        (ShellStage::Running, ReplyView::Finished) => prompt(StepView::stop()),
        (s, _) => (s, StepView::stop()),
    }
}

fn ask_line(step: Step) -> (r: (ShellStage, Step))
    ensures
        (r.0, r.1@) == prompt(step@),
{
    (ShellStage::Reading, step.print("smech-farm> ".to_string()).then_ask(Query::Line))
}

/// How the shell goes on: it reads a line, does what it says, and reads the next, until it is told
/// to stop or there are no more lines.
pub fn run_shell(cfg: &Config, stage: ShellStage, reply: Reply) -> (r: (ShellStage, Step))
    ensures
        (r.0, r.1@) == shell_step(cfg@, stage, reply@),
{
    match (stage, reply) {
        (ShellStage::Start, _) => {
            let banner = "smech-farm v".to_string().concat(VERSION).concat(" \u{2014} ").concat(
                cfg.farm.name.as_str(),
            ).concat(" shell\nType 'help' for available commands.\n\n");
            ask_line(Step::stop().print(banner))
        },
        (ShellStage::Reading, Reply::Text(t)) => match t {
            None => (ShellStage::Done, Step::stop()),
            Some(line) => match read_line(line.as_str()) {
                ShellInput::Nothing => ask_line(Step::stop()),
                ShellInput::Quit => (ShellStage::Done, Step::stop()),
                ShellInput::Help => ask_line(
                    Step::stop().print(print_help(cfg.wireguard.enabled)),
                ),
                ShellInput::Clear => ask_line(
                    Step::stop().print("\u{1b}[2J\u{1b}[H".to_string()),
                ),
                ShellInput::Unknown => ask_line(
                    Step::stop().print(
                        "Unknown command: '".to_string().concat(trim(line.as_str())).concat(
                            "'. Type 'help'.\n",
                        ),
                    ),
                ),
                ShellInput::Run(c) => (
                    ShellStage::Running,
                    Step::stop().then_ask(Query::Command(c)),
                ),
            },
        },
        (ShellStage::Running, Reply::Finished) => ask_line(Step::stop()),
        (s, _) => (s, Step::stop()),
    }
}

/// The shell stops only when it is told to, or when there are no more lines.
pub proof fn law_shell_goes_on(cfg: ConfigView, line: Seq<char>)
    ensures
        shell_step(cfg, ShellStage::Reading, ReplyView::Text(Some(line))).0 is Done <==> line_says(
            line,
        ) is Quit,
        shell_step(cfg, ShellStage::Running, ReplyView::Finished).1.ask == Some(QueryView::Line),
{
}

/// What a line of one word asks for, whatever blanks stand around it.
pub proof fn law_words(line: Seq<char>, w: Seq<char>)
    requires
        text::trimmed(line) == w,
        w.len() > 0,
        text::lacks(w, ' '),
    ensures
        w == "exit"@ || w == "quit"@ ==> line_says(line) is Quit,
        w == "help"@ ==> line_says(line) is Help,
        w == "clear"@ ==> line_says(line) is Clear,
        w == "status"@ ==> line_says(line) == ShellInputView::Run(ShellCommandView::Status),
        w == "workers"@ ==> line_says(line) == ShellInputView::Run(ShellCommandView::Workers),
        w == "queue"@ ==> line_says(line) == ShellInputView::Run(ShellCommandView::Queue),
        w == "jobs"@ ==> line_says(line) == ShellInputView::Run(ShellCommandView::Jobs),
        w == "sync-network-gateway"@ ==> line_says(line) == ShellInputView::Run(
            ShellCommandView::SyncGateway,
        ),
        w == "download-queued-packages"@ ==> line_says(line) == ShellInputView::Run(
            ShellCommandView::DownloadQueued,
        ),
        w == "push-packages"@ ==> line_says(line) == ShellInputView::Run(
            ShellCommandView::PushPackages,
        ),
        w == "orchestrator-shell"@ ==> line_says(line) == ShellInputView::Run(
            ShellCommandView::HostShell,
        ),
        w == "wg-status"@ ==> line_says(line) == ShellInputView::Run(ShellCommandView::WgStatus),
        w == "wg-list-peers"@ ==> line_says(line) == ShellInputView::Run(
            ShellCommandView::WgListPeers,
        ),
        line_says(line) is Unknown <==> !(w == "exit"@ || w == "quit"@ || w == "help"@ || w
            == "clear"@ || w == "status"@ || w == "workers"@ || w == "queue"@ || w == "jobs"@ || w
            == "sync-network-gateway"@ || w == "download-queued-packages"@ || w == "push-packages"@
            || w == "orchestrator-shell"@ || w == "wg-status"@ || w == "wg-list-peers"@),
{
    lemma_words_differ();
    reveal_strlit(" ");
    text::lemma_find_from(w, " "@, 0);
    if text::find_from(w, " "@, 0) is Some {
        text::lemma_single(w, " "@, text::find_from(w, " "@, 0)->0);
    }
    assert(w.skip(0) =~= w);
    assert(text::pieces_at_most(w, " "@, 4) =~= Seq::empty().push(w));
}

proof fn lemma_words_differ()
    ensures
        "exit"@.len() == 4 && "exit"@[0] == 'e',
        "quit"@.len() == 4 && "quit"@[0] == 'q',
        "help"@.len() == 4 && "help"@[0] == 'h',
        "jobs"@.len() == 4 && "jobs"@[0] == 'j',
        "queue"@.len() == 5 && "queue"@[0] == 'q',
        "clear"@.len() == 5 && "clear"@[0] == 'c',
        "status"@.len() == 6,
        "workers"@.len() == 7,
        "wg-status"@.len() == 9,
        "push-packages"@.len() == 13 && "push-packages"@[0] == 'p',
        "wg-list-peers"@.len() == 13 && "wg-list-peers"@[0] == 'w',
        "orchestrator-shell"@.len() == 18,
        "sync-network-gateway"@.len() == 20,
        "download-queued-packages"@.len() == 24,
{
    reveal_strlit("exit");
    reveal_strlit("quit");
    reveal_strlit("help");
    reveal_strlit("jobs");
    reveal_strlit("queue");
    reveal_strlit("clear");
    reveal_strlit("status");
    reveal_strlit("workers");
    reveal_strlit("wg-status");
    reveal_strlit("push-packages");
    reveal_strlit("wg-list-peers");
    reveal_strlit("orchestrator-shell");
    reveal_strlit("sync-network-gateway");
    reveal_strlit("download-queued-packages");
}

proof fn lemma_three_pieces(a: Seq<char>, b: Seq<char>, c: Seq<char>)
    requires
        text::lacks(a, ' '),
        text::lacks(b, ' '),
        text::lacks(c, ' '),
    ensures
        text::pieces_at_most(a + " "@ + b + " "@ + c, " "@, 4) == Seq::empty().push(a).push(
            b,
        ).push(c),
{
    reveal_strlit(" ");
    let s = a + " "@ + b + " "@ + c;
    let i = a.len() as int;
    let j = i + 1 + b.len();
    assert(text::occurs_at(s, " "@, i)) by {
        text::lemma_single(s, " "@, i);
    }
    assert(text::occurs_at(s, " "@, j)) by {
        text::lemma_single(s, " "@, j);
    }
    assert forall|k: int| 0 <= k < i implies !text::occurs_at(s, " "@, k) by {
        assert(s[k] == a[k]);
        text::lemma_single(s, " "@, k);
    }
    assert forall|k: int| i + 1 <= k < j implies !text::occurs_at(s, " "@, k) by {
        assert(s[k] == b[k - i - 1]);
        text::lemma_single(s, " "@, k);
    }
    text::lemma_found_at(s, " "@, 0, i);
    text::lemma_found_at(s, " "@, i + 1, j);
    text::lemma_find_from(s, " "@, j + 1);
    if text::find_from(s, " "@, j + 1) is Some {
        let k = text::find_from(s, " "@, j + 1)->0;
        text::lemma_single(s, " "@, k);
        assert(s[k] == c[k - j - 1]);
    }
    reveal_with_fuel(text::pieces_from, 4);
    assert(s.subrange(0, i) =~= a);
    assert(s.subrange(i + 1, j) =~= b);
    assert(s.skip(j + 1) =~= c);
    assert(text::pieces_from(s, " "@, 2, j + 1) =~= Seq::empty().push(c));
    assert(text::pieces_from(s, " "@, 3, i + 1) =~= Seq::empty().push(b).push(c));
    assert(text::pieces_at_most(s, " "@, 4) =~= Seq::empty().push(a).push(b).push(c));
}

/// A file is pushed by `push compile` and its name, and a worker is added by `wg-add-worker`, its
/// name and its key; other lines of three words mean nothing.
pub proof fn law_lines_of_three_words(line: Seq<char>, a: Seq<char>, b: Seq<char>, c: Seq<char>)
    requires
        text::trimmed(line) == a + " "@ + b + " "@ + c,
        text::lacks(a, ' '),
        text::lacks(b, ' '),
        text::lacks(c, ' '),
    ensures
        a == "push"@ && b == "compile"@ ==> line_says(line) == ShellInputView::Run(
            ShellCommandView::PushCompile(c),
        ),
        a == "wg-add-worker"@ ==> line_says(line) == ShellInputView::Run(
            ShellCommandView::WgAddWorker(b, c),
        ),
        a != "wg-add-worker"@ && !(a == "push"@ && b == "compile"@) ==> line_says(line) is Unknown,
{
    reveal_strlit(" ");
    reveal_strlit("push");
    reveal_strlit("wg-add-worker");
    lemma_three_pieces(a, b, c);
    assert("push"@.len() == 4 && "wg-add-worker"@.len() == 13);
}

/// An empty line asks for nothing.
pub proof fn law_empty_line(line: Seq<char>)
    requires
        text::trimmed(line).len() == 0,
    ensures
        line_says(line) is Nothing,
{
}

/// What the shell does with what a line asks for: it answers and prompts again, has the command
/// carried out, or ends; and it ends where there is no line.
pub proof fn law_shell_answers(cfg: ConfigView, line: Seq<char>)
    ensures
        ({
            let x = shell_step(cfg, ShellStage::Reading, ReplyView::Text(Some(line)));
            &&& line_says(line) is Nothing ==> x == (
                ShellStage::Reading,
                StepView::stop().print("smech-farm> "@).then_ask(QueryView::Line),
            )
            &&& line_says(line) is Quit ==> x == (ShellStage::Done, StepView::stop())
            &&& line_says(line) is Help ==> x == (
                ShellStage::Reading,
                StepView::stop().print(help_text(cfg.wireguard.enabled)).print(
                    "smech-farm> "@,
                ).then_ask(QueryView::Line),
            )
            &&& line_says(line) is Clear ==> x == (
                ShellStage::Reading,
                StepView::stop().print("\u{1b}[2J\u{1b}[H"@).print("smech-farm> "@).then_ask(
                    QueryView::Line,
                ),
            )
            &&& line_says(line) is Unknown ==> x == (
                ShellStage::Reading,
                StepView::stop().print(
                    "Unknown command: '"@ + text::trimmed(line) + "'. Type 'help'.\n"@,
                ).print("smech-farm> "@).then_ask(QueryView::Line),
            )
            &&& line_says(line) matches ShellInputView::Run(c) ==> x == (
                ShellStage::Running,
                StepView::stop().then_ask(QueryView::Command(c)),
            )
        }),
        shell_step(cfg, ShellStage::Running, ReplyView::Finished) == (
            ShellStage::Reading,
            StepView::stop().print("smech-farm> "@).then_ask(QueryView::Line),
        ),
        shell_step(cfg, ShellStage::Reading, ReplyView::Text(None)) == (
            ShellStage::Done,
            StepView::stop(),
        ),
        shell_step(cfg, ShellStage::Start, ReplyView::Begin) == (
            ShellStage::Reading,
            StepView::stop().print(
                "smech-farm v"@ + "2.0.0"@ + " \u{2014} "@ + cfg.farm.name
                    + " shell\nType 'help' for available commands.\n\n"@,
            ).print("smech-farm> "@).then_ask(QueryView::Line),
        ),
{
}

/// The help names the tunnel's commands where the tunnel is on, and says so where it is off.
pub proof fn law_help()
    ensures
        help_text(true) == HELP@ + HELP_TUNNEL@ + "\n\n"@,
        help_text(false) == HELP@ + HELP_NO_TUNNEL@ + "\n\n"@,
        HELP@
            == "\n  push compile <file>        Push a compile job to the farm\n  sync-network-gateway       Sync DNS and upstream/downstream connections\n  download-queued-packages   Force-process the package download queue\n  push-packages              Force-push NFS packages to workers\n  orchestrator-shell         Drop into the host OS shell (privileged)\n  status                     Show farm status summary\n  workers                    List registered workers\n  queue                      Show package download queue\n  jobs                       Show compile job queue\n  clear                      Clear terminal\n  help                       Show this help\n  exit                       Exit the shell\n"@,
        HELP_TUNNEL@
            == "\n  wg-status                  Show WireGuard interface status\n  wg-list-peers              List registered WireGuard worker peers\n  wg-add-worker <name> <pubkey>  Register a new WireGuard worker peer"@,
        HELP_NO_TUNNEL@
            == "\n  (WireGuard not enabled \u{2014} set wireguard.enabled = true in smech-farm.toml)"@,
{
}

/// A command of the shell is viewed as the same command, with the same things in the same places.
pub proof fn law_shell_command_views(a: String, b: String, c: ShellCommand)
    ensures
        ShellCommand::PushCompile(a)@ == ShellCommandView::PushCompile(a@),
        ShellCommand::WgAddWorker(a, b)@ == ShellCommandView::WgAddWorker(a@, b@),
        ShellCommand::Status@ == ShellCommandView::Status,
        ShellCommand::Workers@ == ShellCommandView::Workers,
        ShellCommand::Queue@ == ShellCommandView::Queue,
        ShellCommand::Jobs@ == ShellCommandView::Jobs,
        ShellCommand::SyncGateway@ == ShellCommandView::SyncGateway,
        ShellCommand::DownloadQueued@ == ShellCommandView::DownloadQueued,
        ShellCommand::PushPackages@ == ShellCommandView::PushPackages,
        ShellCommand::HostShell@ == ShellCommandView::HostShell,
        ShellCommand::WgStatus@ == ShellCommandView::WgStatus,
        ShellCommand::WgListPeers@ == ShellCommandView::WgListPeers,
        ShellInput::Run(c)@ == ShellInputView::Run(c@),
        ShellInput::Quit@ == ShellInputView::Quit,
        ShellInput::Help@ == ShellInputView::Help,
        ShellInput::Clear@ == ShellInputView::Clear,
        ShellInput::Nothing@ == ShellInputView::Nothing,
        ShellInput::Unknown@ == ShellInputView::Unknown,
{
}

/// Where a reply is not of the kind that was asked for, nothing is done and the same is awaited; once all
/// is done, nothing changes any more.
pub proof fn law_other_replies_change_nothing(cfg: ConfigView, stage: ShellStage, reply: ReplyView)
    ensures
        stage is Reading && !(reply is Text) ==> shell_step(cfg, stage, reply) == (stage, StepView::stop()),
        stage is Running && !(reply is Finished) ==> shell_step(cfg, stage, reply) == (stage, StepView::stop()),
        stage is Done ==> shell_step(cfg, stage, reply) == (stage, StepView::stop()),
{
}

} // verus!
