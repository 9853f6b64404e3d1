use smech_farm::gateway::{run_daemon, run_gateway_sync, DaemonStage, SyncStage};
use smech_farm::work::{Cmd, Effect, Query, Reply, Step};

#[test]
fn a_sync_is_noted_done_and_noted_again() {
    let (s, step) = run_gateway_sync("me", SyncStage::Start, Reply::Begin);
    let line = "[smech-farm] gateway sync triggered by me\n".to_string();
    assert_eq!(step.effects, vec![Effect::Report(line)]);
    assert_eq!(step.ask, Some(Query::Clock));
    let (s, step) = run_gateway_sync("me", s, Reply::Time(11));
    assert_eq!(step.ask, Some(Query::OpenSync("me".to_string(), 11, "pending".to_string())));
    let (end, step) = run_gateway_sync("me", s, Reply::Id(4));
    assert_eq!(end, SyncStage::Done);
    assert_eq!(
        step.effects,
        vec![
            Effect::Exec(Cmd::new("resolvectl").arg("flush-caches")),
            Effect::Exec(Cmd::new("ip").arg("route").arg("flush").arg("cache")),
            Effect::Exec(Cmd::new("touch").arg("/srv/smech-farm/packages/.sync")),
            Effect::FinishSync(4, "ok".to_string()),
            Effect::Report("[smech-farm] gateway sync complete\n".to_string()),
        ]
    );
    assert_eq!(step.ask, None);
}

#[test]
fn the_daemon_goes_round() {
    let (s, step) = run_daemon(DaemonStage::Start, Reply::Begin);
    let line = "[smech-farmd] starting — polling every 5s\n".to_string();
    assert_eq!(step.effects, vec![Effect::Report(line)]);
    assert_eq!(step.ask, Some(Query::ProcessQueue));
    let (s, step) = run_daemon(s, Reply::Finished);
    assert_eq!(step.ask, Some(Query::PushPackages));
    let (s, step) = run_daemon(s, Reply::Finished);
    assert_eq!(step.ask, Some(Query::ExpireWorkers));
    let (s, step) = run_daemon(s, Reply::Finished);
    assert_eq!(step.effects, vec![Effect::Sleep(5)]);
    assert_eq!(step.ask, Some(Query::ProcessQueue));
    assert_eq!(s, DaemonStage::Working);
}

#[test]
fn a_reply_to_another_question_changes_nothing() {
    let (s, step) = run_gateway_sync("me", SyncStage::Timing, Reply::Finished);
    assert_eq!((s, step), (SyncStage::Timing, Step::stop()));
}
