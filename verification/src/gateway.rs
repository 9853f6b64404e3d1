//! The sync of the network gateway, and the daemon's round.

use vstd::prelude::*;

use crate::packages::NFS_PKG_PATH;
use crate::work;
use crate::work::{Cmd, Effect, EffectView, Query, QueryView, Reply, ReplyView, Step, StepView};

verus! {

/// What the log says of a sync that has not ended.
pub const SYNC_OPEN: &'static str = "pending";

/// What the log says of a sync that has ended.
pub const SYNC_ENDED: &'static str = "ok";

/// What a sync waits for.
#[derive(Clone, Copy, Debug, PartialEq, Eq)]
pub enum SyncStage {
    Start,
    /// The time was asked for.
    Timing,
    /// The sync is being noted in the log.
    Logging,
    Done,
}

/// How a sync that `by` asked for goes on.
pub open spec fn sync_step(by: Seq<char>, stage: SyncStage, reply: ReplyView) -> (
    SyncStage,
    StepView,
) {
    match (stage, reply) {
        (SyncStage::Start, _) => (
            SyncStage::Timing,
            StepView::stop().report(
                "[smech-farm] gateway sync triggered by "@ + by + "\n"@,
            ).then_ask(QueryView::Clock),
        ),
        (SyncStage::Timing, ReplyView::Time(t)) => (
            SyncStage::Logging,
            StepView::stop().then_ask(QueryView::OpenSync(by, t, SYNC_OPEN@)),
        ),
        (SyncStage::Logging, ReplyView::Id(id)) => (
            SyncStage::Done,
            StepView::stop().exec(work::command("resolvectl"@).push("flush-caches"@)).exec(
                work::command("ip"@).push("route"@).push("flush"@).push("cache"@),
            ).exec(work::command("touch"@).push(NFS_PKG_PATH@ + "/.sync"@)).with(
                EffectView::FinishSync(id, SYNC_ENDED@),
            ).report("[smech-farm] gateway sync complete\n"@),
        ),
        (s, _) => (s, StepView::stop()),
    }
}

/// How a sync that `by` asked for goes on: it is noted in the log, the caches are flushed, the
/// share is touched, and the log says that all went well.
pub fn run_gateway_sync(by: &str, stage: SyncStage, reply: Reply) -> (r: (SyncStage, Step))
    ensures
        (r.0, r.1@) == sync_step(by@, stage, reply@),
{
    match (stage, reply) {
        (SyncStage::Start, _) => (
            SyncStage::Timing,
            Step::stop().report(
                "[smech-farm] gateway sync triggered by ".to_string().concat(by).concat("\n"),
            ).then_ask(Query::Clock),
        ),
        (SyncStage::Timing, Reply::Time(t)) => (
            SyncStage::Logging,
            Step::stop().then_ask(Query::OpenSync(by.to_string(), t, SYNC_OPEN.to_string())),
        ),
        (SyncStage::Logging, Reply::Id(id)) => {
            let mark = NFS_PKG_PATH.to_string().concat("/.sync");
            (
                SyncStage::Done,
                Step::stop().exec(Cmd::new("resolvectl").arg("flush-caches")).exec(
                    Cmd::new("ip").arg("route").arg("flush").arg("cache"),
                ).exec(Cmd::new("touch").arg(mark.as_str())).with(
                    Effect::FinishSync(id, SYNC_ENDED.to_string()),
                ).report("[smech-farm] gateway sync complete\n".to_string()),
            )
        },
        (s, _) => (s, Step::stop()),
    }
}

/// For how many seconds the daemon rests between two rounds.
pub const DAEMON_POLL_S: u64 = 5;

/// What the daemon waits for.
#[derive(Clone, Copy, Debug, PartialEq, Eq)]
pub enum DaemonStage {
    Start,
    /// The queue is being worked off.
    Working,
    /// The workers are being told of packages.
    Pushing,
    /// The workers that are silent are being looked for.
    Expiring,
}

/// How the daemon goes on: there is no end to it.
pub open spec fn daemon_step(stage: DaemonStage, reply: ReplyView) -> (DaemonStage, StepView) {
    match (stage, reply) {
        (DaemonStage::Start, _) => (
            DaemonStage::Working,
            StepView::stop().report("[smech-farmd] starting \u{2014} polling every 5s\n"@).then_ask(
                QueryView::ProcessQueue,
            ),
        ),
        (DaemonStage::Working, ReplyView::Finished) => (
            DaemonStage::Pushing,
            StepView::stop().then_ask(QueryView::PushPackages),
        ),
        (DaemonStage::Pushing, ReplyView::Finished) => (
            DaemonStage::Expiring,
            StepView::stop().then_ask(QueryView::ExpireWorkers),
        ),
        (DaemonStage::Expiring, ReplyView::Finished) => (
            DaemonStage::Working,
            StepView::stop().with(EffectView::Sleep(DAEMON_POLL_S)).then_ask(
                QueryView::ProcessQueue,
            ),
        ),
        (s, _) => (s, StepView::stop()),
    }
}

/// How the daemon goes on: in each round it works off the queue, tells the workers of packages,
/// looks for workers that are silent, and rests.
pub fn run_daemon(stage: DaemonStage, reply: Reply) -> (r: (DaemonStage, Step))
    ensures
        (r.0, r.1@) == daemon_step(stage, reply@),
{
    match (stage, reply) {
        (DaemonStage::Start, _) => (
            DaemonStage::Working,
            Step::stop().report(
                "[smech-farmd] starting \u{2014} polling every 5s\n".to_string(),
            ).then_ask(Query::ProcessQueue),
        ),
        (DaemonStage::Working, Reply::Finished) => (
            DaemonStage::Pushing,
            Step::stop().then_ask(Query::PushPackages),
        ),
        (DaemonStage::Pushing, Reply::Finished) => (
            DaemonStage::Expiring,
            Step::stop().then_ask(Query::ExpireWorkers),
        ),
        (DaemonStage::Expiring, Reply::Finished) => (
            DaemonStage::Working,
            Step::stop().with(Effect::Sleep(DAEMON_POLL_S)).then_ask(Query::ProcessQueue),
        ),
        (s, _) => (s, Step::stop()),
    }
}

/// A sync that the log could note ends there as one that went well, under the number that it has.
pub proof fn law_sync_is_logged(by: Seq<char>, t: i64, id: i64)
    ensures
        ({
            let a = sync_step(by, SyncStage::Start, ReplyView::Begin);
            let b = sync_step(by, a.0, ReplyView::Time(t));
            let c = sync_step(by, b.0, ReplyView::Id(id));
            &&& a.1.ask == Some(QueryView::Clock)
            &&& b.1.ask == Some(QueryView::OpenSync(by, t, "pending"@))
            &&& c.0 is Done
            &&& c.1.effects.contains(EffectView::FinishSync(id, "ok"@))
        }),
{
    let c = sync_step(by, SyncStage::Logging, ReplyView::Id(id));
    assert(c.1.effects[3] == EffectView::FinishSync(id, "ok"@));
}

/// The daemon never stops, and every round has its three parts and its rest.
pub proof fn law_daemon_round()
    ensures
        ({
            let a = daemon_step(DaemonStage::Working, ReplyView::Finished);
            let b = daemon_step(a.0, ReplyView::Finished);
            let c = daemon_step(b.0, ReplyView::Finished);
            &&& a.1.ask == Some(QueryView::PushPackages)
            &&& b.1.ask == Some(QueryView::ExpireWorkers)
            &&& c.1 == StepView::stop().with(EffectView::Sleep(DAEMON_POLL_S)).then_ask(
                QueryView::ProcessQueue,
            )
            &&& c.0 is Working
        }),
{
}

/// A sync is announced with the name of who asked for it, logged as open, carried out by flushing
/// what the host remembers of names and routes and touching the share, logged as ended under the
/// number it was opened with, and announced again.
pub proof fn law_sync_run(by: Seq<char>, t: i64, id: i64)
    ensures
        ({
            let a = sync_step(by, SyncStage::Start, ReplyView::Begin);
            let b = sync_step(by, a.0, ReplyView::Time(t));
            let c = sync_step(by, b.0, ReplyView::Id(id));
            &&& a.1 == StepView::stop().report(
                "[smech-farm] gateway sync triggered by "@ + by + "\n"@,
            ).then_ask(QueryView::Clock)
            &&& b.1 == StepView::stop().then_ask(QueryView::OpenSync(by, t, "pending"@))
            &&& c.1 == StepView::stop().exec(seq!["resolvectl"@, "flush-caches"@]).exec(
                seq!["ip"@, "route"@, "flush"@, "cache"@],
            ).exec(seq!["touch"@, "/srv/smech-farm/packages"@ + "/.sync"@]).with(
                EffectView::FinishSync(id, "ok"@),
            ).report("[smech-farm] gateway sync complete\n"@)
        }),
{
    assert(work::command("resolvectl"@).push("flush-caches"@) =~= seq![
        "resolvectl"@,
        "flush-caches"@,
    ]);
    assert(work::command("ip"@).push("route"@).push("flush"@).push("cache"@) =~= seq![
        "ip"@,
        "route"@,
        "flush"@,
        "cache"@,
    ]);
    assert(work::command("touch"@).push(NFS_PKG_PATH@ + "/.sync"@) =~= seq![
        "touch"@,
        "/srv/smech-farm/packages"@ + "/.sync"@,
    ]);
}

/// The daemon says that it starts and works the queue off; then it tells the workers, looks for the
/// silent ones, and rests for five seconds before it begins again.
pub proof fn law_daemon_start()
    ensures
        ({
            let a = daemon_step(DaemonStage::Start, ReplyView::Begin);
            let b = daemon_step(a.0, ReplyView::Finished);
            let c = daemon_step(b.0, ReplyView::Finished);
            let d = daemon_step(c.0, ReplyView::Finished);
            &&& a.1 == StepView::stop().report(
                "[smech-farmd] starting \u{2014} polling every 5s\n"@,
            ).then_ask(QueryView::ProcessQueue)
            &&& b.1 == StepView::stop().then_ask(QueryView::PushPackages)
            &&& c.1 == StepView::stop().then_ask(QueryView::ExpireWorkers)
            &&& d.1 == StepView::stop().with(EffectView::Sleep(5)).then_ask(QueryView::ProcessQueue)
            &&& d.0 == a.0
        }),
{
}

/// Where a reply is not of the kind that was asked for, nothing is done and the same is awaited; once all
/// is done, nothing changes any more.
pub proof fn law_other_replies_change_nothing(by: Seq<char>, stage: SyncStage, reply: ReplyView)
    ensures
        stage is Timing && !(reply is Time) ==> sync_step(by, stage, reply) == (stage, StepView::stop()),
        stage is Logging && !(reply is Id) ==> sync_step(by, stage, reply) == (stage, StepView::stop()),
        stage is Done ==> sync_step(by, stage, reply) == (stage, StepView::stop()),
{
}

/// A round of the daemon waits for what it asked for.
pub proof fn law_rounds_wait(stage: DaemonStage, reply: ReplyView)
    ensures
        !(stage is Start) && !(reply is Finished) ==> daemon_step(stage, reply) == (stage, StepView::stop()),
{
}

} // verus!
