use smech_farm::config::{Config, FarmConfig, WireGuardConfig};
use smech_farm::shell::{print_help, read_line, run_shell, ShellCommand, ShellInput, ShellStage};
use smech_farm::work::{Effect, Query, Reply};

fn config() -> Config {
    Config { farm: FarmConfig::default(), wireguard: WireGuardConfig::default() }
}

fn line(s: &str) -> Reply {
    Reply::Text(Some(s.to_string()))
}

#[test]
fn lines_are_read() {
    assert_eq!(read_line("  \n"), ShellInput::Nothing);
    assert_eq!(read_line("exit\n"), ShellInput::Quit);
    assert_eq!(read_line(" quit "), ShellInput::Quit);
    assert_eq!(read_line("help"), ShellInput::Help);
    assert_eq!(read_line("clear"), ShellInput::Clear);
    assert_eq!(read_line("status"), ShellInput::Run(ShellCommand::Status));
    assert_eq!(read_line("workers"), ShellInput::Run(ShellCommand::Workers));
    assert_eq!(read_line("queue"), ShellInput::Run(ShellCommand::Queue));
    assert_eq!(read_line("jobs"), ShellInput::Run(ShellCommand::Jobs));
    assert_eq!(read_line("sync-network-gateway"), ShellInput::Run(ShellCommand::SyncGateway));
    assert_eq!(
        read_line("download-queued-packages"),
        ShellInput::Run(ShellCommand::DownloadQueued)
    );
    assert_eq!(read_line("push-packages"), ShellInput::Run(ShellCommand::PushPackages));
    assert_eq!(read_line("orchestrator-shell"), ShellInput::Run(ShellCommand::HostShell));
    assert_eq!(read_line("wg-status"), ShellInput::Run(ShellCommand::WgStatus));
    assert_eq!(read_line("wg-list-peers"), ShellInput::Run(ShellCommand::WgListPeers));
    assert_eq!(
        read_line("push compile /tmp/x.tar\n"),
        ShellInput::Run(ShellCommand::PushCompile("/tmp/x.tar".to_string()))
    );
    assert_eq!(
        read_line("wg-add-worker w KEY="),
        ShellInput::Run(ShellCommand::WgAddWorker("w".to_string(), "KEY=".to_string()))
    );
}

#[test]
fn other_lines_are_unknown() {
    for l in ["push compile", "push  compile x", "push compile a b", "status now", "wg-add-worker w", "EXIT"] {
        assert_eq!(read_line(l), ShellInput::Unknown, "{}", l);
    }
}

#[test]
fn the_shell_greets_and_asks() {
    let (s, step) = run_shell(&config(), ShellStage::Start, Reply::Begin);
    assert_eq!(s, ShellStage::Reading);
    assert_eq!(
        step.effects,
        vec![
            Effect::Print(
                "smech-farm v2.0.0 — SmechFarm shell\nType 'help' for available commands.\n\n"
                    .to_string()
            ),
            Effect::Print("smech-farm> ".to_string()),
        ]
    );
    assert_eq!(step.ask, Some(Query::Line));
}

#[test]
fn the_shell_does_what_it_is_told() {
    let cfg = config();
    let (s, step) = run_shell(&cfg, ShellStage::Reading, line("status\n"));
    assert_eq!(s, ShellStage::Running);
    assert_eq!(step.ask, Some(Query::Command(ShellCommand::Status)));
    let (s, step) = run_shell(&cfg, s, Reply::Finished);
    assert_eq!(s, ShellStage::Reading);
    assert_eq!(step.ask, Some(Query::Line));
    let (_, step) = run_shell(&cfg, s, line(" what now \n"));
    assert_eq!(
        step.effects[0],
        Effect::Print("Unknown command: 'what now'. Type 'help'.\n".to_string())
    );
    let (_, step) = run_shell(&cfg, s, line("clear"));
    assert_eq!(step.effects[0], Effect::Print("\x1b[2J\x1b[H".to_string()));
    let (_, step) = run_shell(&cfg, s, line("\n"));
    assert_eq!(step.effects, vec![Effect::Print("smech-farm> ".to_string())]);
}

#[test]
fn the_shell_ends() {
    let (s, step) = run_shell(&config(), ShellStage::Reading, line("exit\n"));
    assert_eq!((s, step.ask), (ShellStage::Done, None));
    let (s, step) = run_shell(&config(), ShellStage::Reading, Reply::Text(None));
    assert_eq!((s, step.ask), (ShellStage::Done, None));
}

#[test]
fn the_help_depends_on_the_tunnel() {
    let on = print_help(true);
    assert!(on.starts_with("\n  push compile <file>        Push a compile job to the farm\n"));
    assert!(on.contains("\n  exit                       Exit the shell\n\n  wg-status"));
    assert!(on.ends_with("wg-add-worker <name> <pubkey>  Register a new WireGuard worker peer\n\n"));
    let off = print_help(false);
    assert!(off.ends_with(
        "Exit the shell\n\n  (WireGuard not enabled — set wireguard.enabled = true in smech-farm.toml)\n\n"
    ));
}
