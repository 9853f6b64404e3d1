//! The download queue: what joins it, and how it is worked off.

use vstd::prelude::*;

use crate::json_text;
use crate::json_text::json_array;
use crate::order;
use crate::order::order_by_number;
use crate::records;
use crate::records::{
    NewPackage, NewPackageView, PackageRow, PackageRowView, QueueRequest, QueueRequestView,
};
use crate::text;
use crate::text::{integer, same};
use crate::work;
use crate::work::{
    Cmd, Effect, EffectView, Query, QueryView, Reply, ReplyView, Step, StepView,
};

verus! {

/// Where packages lie for the workers.
pub const NFS_PKG_PATH: &'static str = "/srv/smech-farm/packages";

/// The status of a package that joins the queue.
pub const PENDING: &'static str = "pending";

/// How many packages are taken from the queue at a time.
pub const BATCH: usize = 20;

/// Whether a package with this status is on its way to the workers, or there.
pub open spec fn is_active(status: Seq<char>) -> bool {
    status == "pending"@ || status == "downloading"@ || status == "available"@
}

/// Whether the package is on its way to the worker, or there.
pub open spec fn queued(rows: Seq<PackageRowView>, package: Seq<char>, worker: Seq<char>) -> bool {
    exists|i: int|
        0 <= i < rows.len() && (#[trigger] rows[i]).package_name == package && rows[i].worker_id
            == worker && is_active(rows[i].status)
}

/// What joins the queue for a request: nothing where the package is on its way to the worker.
pub open spec fn addition(rows: Seq<PackageRowView>, req: QueueRequestView, now: i64) -> Option<
    NewPackageView,
> {
    if queued(rows, req.package_name, req.worker_id) {
        None
    } else {
        Some(
            NewPackageView {
                package_name: req.package_name,
                version: match req.version {
                    Some(v) => v,
                    None => Seq::empty(),
                },
                worker_id: req.worker_id,
                status: PENDING@,
                requested_at: now,
            },
        )
    }
}

fn active(status: &str) -> (r: bool)
    ensures
        r == is_active(status@),
{
    same(status, "pending") || same(status, "downloading") || same(status, "available")
}

fn is_queued(rows: &Vec<PackageRow>, package: &str, worker: &str) -> (r: bool)
    ensures
        r == queued(records::views(rows@), package@, worker@),
{
    let ghost all = records::views(rows@);
    for i in 0..rows.len()
        invariant
            all == records::views(rows@),
            forall|j: int|
                0 <= j < i ==> !((#[trigger] all[j]).package_name == package@ && all[j].worker_id
                    == worker@ && is_active(all[j].status)),
    {
        assert(all[i as int] == rows@[i as int]@);
        if same(rows[i].package_name.as_str(), package) && same(rows[i].worker_id.as_str(), worker)
            && active(rows[i].status.as_str()) {
            return true;
        }
    }
    false
}

/// What joins the queue for a request: nothing where the package is on its way to the worker.
pub fn queue_addition(rows: &Vec<PackageRow>, req: QueueRequest, now: i64) -> (r: Option<NewPackage>)
    ensures
        records::opt_view(r) == addition(records::views(rows@), req@, now),
{
    if is_queued(rows, req.package_name.as_str(), req.worker_id.as_str()) {
        None
    } else {
        Some(
            NewPackage {
                package_name: req.package_name,
                version: match req.version {
                    Some(v) => v,
                    None => String::new(),
                },
                worker_id: req.worker_id,
                status: PENDING.to_string(),
                requested_at: now,
            },
        )
    }
}

/// The answer to a request for a package: an HTTP status, a body, and what joins the queue.
/// `None` stands for a request that could not be read.
pub open spec fn queue_add_answer(
    rows: Seq<PackageRowView>,
    req: Option<QueueRequestView>,
    now: i64,
) -> (i32, Seq<char>, Option<NewPackageView>) {
    match req {
        None => (400, "{\"error\":\"bad request\"}"@, None),
        Some(q) => match addition(rows, q, now) {
            None => (200, "{\"ok\":true,\"msg\":\"already queued\"}"@, None),
            Some(p) => (200, "{\"ok\":true,\"msg\":\"queued\"}"@, Some(p)),
        },
    }
}

/// Answers a request for a package.
pub fn api_queue_add(rows: &Vec<PackageRow>, req: Option<QueueRequest>, now: i64) -> (r: (
    i32,
    String,
    Option<NewPackage>,
))
    ensures
        (r.0, r.1@, records::opt_view(r.2)) == queue_add_answer(
            records::views(rows@),
            records::opt_view(req),
            now,
        ),
{
    match req {
        None => (400, "{\"error\":\"bad request\"}".to_string(), None),
        Some(q) => match queue_addition(rows, q, now) {
            None => (200, "{\"ok\":true,\"msg\":\"already queued\"}".to_string(), None),
            Some(p) => (200, "{\"ok\":true,\"msg\":\"queued\"}".to_string(), Some(p)),
        },
    }
}

/// The row of a package that joined the queue under the number `id`.
pub open spec fn joined_row(p: NewPackageView, id: i64) -> PackageRowView {
    PackageRowView {
        id,
        package_name: p.package_name,
        version: p.version,
        worker_id: p.worker_id,
        status: p.status,
        requested_at: p.requested_at,
    }
}

/// The pending packages among `rows`, in their order.
pub open spec fn pending(rows: Seq<PackageRowView>) -> Seq<PackageRowView> {
    rows.filter(|p: PackageRowView| p.status == "pending"@)
}

/// The packages that are taken from the queue: the first few that are pending.
pub open spec fn batch(rows: Seq<PackageRowView>) -> Seq<PackageRowView> {
    if pending(rows).len() > BATCH {
        pending(rows).take(BATCH as int)
    } else {
        pending(rows)
    }
}

/// Takes from the queue the first few packages that are pending.
fn take_batch(rows: Vec<PackageRow>) -> (r: Vec<PackageRow>)
    ensures
        records::views(r@) == batch(records::views(rows@)),
{
    let ghost all = records::views(rows@);
    let ghost p = |p: PackageRowView| p.status == "pending"@;
    let ghost n = rows@.len();
    let mut out: Vec<PackageRow> = Vec::new();
    let mut rest = rows;
    let mut count: usize = 0;
    let ghost mut i: int = 0;
    proof {
        assert(all.take(0) =~= Seq::<PackageRowView>::empty());
        reveal(Seq::filter);
        assert(records::views(out@) =~= all.take(0).filter(p));
        assert(records::views(rest@) =~= all.skip(0));
    }
    while rest.len() > 0
        invariant
            p == (|p: PackageRowView| p.status == "pending"@),
            0 <= i <= all.len(),
            records::views(rest@) == all.skip(i),
            count == out@.len(),
            count <= BATCH,
            ({
                let f = all.take(i).filter(p);
                records::views(out@) == (if f.len() > BATCH {
                    f.take(BATCH as int)
                } else {
                    f
                })
            }),
        decreases rest@.len(),
    {
        let ghost was = rest@;
        let row = rest.remove(0);
        proof {
            assert(rest@ =~= was.drop_first());
            assert(records::views(was).len() == all.skip(i).len());
            assert(records::views(was)[0] == row@);
            assert(all.skip(i)[0] == all[i]);
            assert(records::views(rest@) =~= all.skip(i + 1)) by {
                assert forall|k: int| 0 <= k < rest@.len() implies records::views(rest@)[k]
                    == all.skip(i + 1)[k] by {
                    assert(records::views(was)[k + 1] == all.skip(i)[k + 1]);
                }
            }
            reveal(Seq::filter);
            assert(all.take(i + 1).drop_last() =~= all.take(i));
        }
        let ghost out_was = out@;
        let is_pending = same(row.status.as_str(), "pending");
        if count < BATCH && is_pending {
            let ghost f = all.take(i).filter(p);
            assert(records::views(out_was).len() == count);
            assert(records::views(out_was) == f);
            out.push(row);
            count += 1;
            assert(records::views(out@) =~= f.push(all[i]));
        } else {
            let ghost f = all.take(i).filter(p);
            let ghost g = all.take(i + 1).filter(p);
            if is_pending {
                assert(g == f.push(all[i]));
                assert(records::views(out@).len() == BATCH);
                assert(records::views(out@) =~= g.take(BATCH as int));
            }
        }
        proof {
            i = i + 1;
        }
    }
    assert(all.take(i) =~= all);
    out
}

/// Where the archive of a package lies.
pub open spec fn package_path(package: Seq<char>) -> Seq<char> {
    NFS_PKG_PATH@ + "/"@ + package + ".tar.xz"@
}

/// Where the archive of a package lies.
pub fn package_file(package: &str) -> (r: String)
    ensures
        r@ == package_path(package@),
{
    NFS_PKG_PATH.to_string().concat("/").concat(package).concat(".tar.xz")
}

/// The places that a package is looked for at, in turn.
pub open spec fn source_url(package: Seq<char>, k: int) -> Seq<char> {
    if k == 0 {
        "https://download.kde.org/stable/frameworks/6.27/"@ + package + "-6.27.0.tar.xz"@
    } else if k == 1 {
        "https://download.kde.org/stable/plasma/6.7.2/"@ + package + "-6.7.2.tar.xz"@
    } else {
        "https://github.com/"@ + package + "/"@ + package + "/releases/latest/download/"@ + package
            + ".tar.xz"@
    }
}

/// How many places a package is looked for at.
pub const SOURCES: usize = 3;

/// The place numbered `k` that a package is looked for at.
pub fn package_url(package: &str, k: usize) -> (r: String)
    ensures
        r@ == source_url(package@, k as int),
{
    if k == 0 {
        "https://download.kde.org/stable/frameworks/6.27/".to_string().concat(package).concat(
            "-6.27.0.tar.xz",
        )
    } else if k == 1 {
        "https://download.kde.org/stable/plasma/6.7.2/".to_string().concat(package).concat(
            "-6.7.2.tar.xz",
        )
    } else {
        "https://github.com/".to_string().concat(package).concat("/").concat(package).concat(
            "/releases/latest/download/",
        ).concat(package).concat(".tar.xz")
    }
}

/// The command that downloads a package from the place numbered `k`.
pub open spec fn download_command(package: Seq<char>, k: int) -> Seq<Seq<char>> {
    work::command("curl"@).push("-sfL"@).push("--max-time"@).push("120"@).push("-o"@).push(
        package_path(package),
    ).push(source_url(package, k))
}

/// The command that downloads a package from the place numbered `k`.
pub fn download_cmd(package: &str, k: usize) -> (r: Cmd)
    ensures
        r@ == download_command(package@, k as int),
{
    Cmd::new("curl").arg("-sfL").arg("--max-time").arg("120").arg("-o").arg(
        package_file(package).as_str(),
    ).arg(package_url(package, k).as_str())
}

/// What the work on the queue waits for.
#[derive(Clone, Copy, Debug, PartialEq, Eq)]
pub enum QueueStage {
    Start,
    /// The queue was asked for.
    Listing,
    /// The package is being downloaded.
    Fetching,
    /// The download succeeded, and its file is looked for.
    Checking,
    /// The package was had, or not, and the time was asked for.
    Timing(bool),
    Done,
}

/// The work on the queue: the packages taken from it, which of them is worked on, and from which
/// place.
#[derive(Debug, PartialEq, Eq)]
pub struct QueueRun {
    pub rows: Vec<PackageRow>,
    pub at: usize,
    pub source: usize,
    pub stage: QueueStage,
}

pub struct QueueRunView {
    pub rows: Seq<PackageRowView>,
    pub at: int,
    pub source: int,
    pub stage: QueueStage,
}

impl View for QueueRun {
    type V = QueueRunView;

    open spec fn view(&self) -> QueueRunView {
        QueueRunView {
            rows: records::views(self.rows@),
            at: self.at as int,
            source: self.source as int,
            stage: self.stage,
        }
    }
}

impl QueueRunView {
    /// Whether a stage that works on a package has one.
    pub open spec fn wf(self) -> bool {
        &&& 0 <= self.at
        &&& 0 <= self.source < SOURCES
        &&& self.stage is Fetching || self.stage is Checking || self.stage is Timing ==> self.at
            < self.rows.len()
    }

    pub open spec fn package(self) -> Seq<char> {
        self.rows[self.at].package_name
    }
}

/// The run before anything of it is done.
pub open spec fn queue_start() -> QueueRunView {
    QueueRunView { rows: Seq::empty(), at: 0, source: 0, stage: QueueStage::Start }
}

/// Begins with the package at `run.at`, behind what `step` already does.
pub open spec fn begin_package(run: QueueRunView, step: StepView) -> (QueueRunView, StepView) {
    if run.at < run.rows.len() {
        let row = run.rows[run.at];
        (
            QueueRunView { source: 0, stage: QueueStage::Fetching, ..run },
            step.report(
                "[smech-farmd] downloading package: "@ + row.package_name + " "@ + row.version + "\n"@,
            ).with(EffectView::MarkPackage(row.id, "downloading"@)).with(
                EffectView::MakeDir(NFS_PKG_PATH@),
            ).then_ask(QueryView::Run(download_command(row.package_name, 0))),
        )
    } else {
        (QueueRunView { stage: QueueStage::Done, ..run }, step)
    }
}

/// Goes on to the next place, or gives up after the last.
pub open spec fn next_source(run: QueueRunView) -> (QueueRunView, StepView) {
    if run.source + 1 < SOURCES {
        (
            QueueRunView { source: run.source + 1, stage: QueueStage::Fetching, ..run },
            StepView::stop().then_ask(
                QueryView::Run(download_command(run.package(), run.source + 1)),
            ),
        )
    } else {
        (
            QueueRunView { stage: QueueStage::Timing(false), ..run },
            StepView::stop().then_ask(QueryView::Clock),
        )
    }
}

/// How the work on the queue goes on.
pub open spec fn queue_step(run: QueueRunView, reply: ReplyView) -> (QueueRunView, StepView) {
    match (run.stage, reply) {
        (QueueStage::Start, _) => (
            QueueRunView { stage: QueueStage::Listing, ..run },
            StepView::stop().then_ask(QueryView::Packages),
        ),
        (QueueStage::Listing, ReplyView::Packages(rows)) => begin_package(
            QueueRunView { rows: batch(rows), at: 0, source: 0, stage: QueueStage::Listing },
            StepView::stop(),
        ),
        (QueueStage::Fetching, ReplyView::Status(s)) => if s == Some(true) {
            (
                QueueRunView { stage: QueueStage::Checking, ..run },
                StepView::stop().then_ask(QueryView::Exists(package_path(run.package()))),
            )
        } else {
            next_source(run)
        },
        (QueueStage::Checking, ReplyView::Found(b)) => if b {
            (
                QueueRunView { stage: QueueStage::Timing(true), ..run },
                StepView::stop().then_ask(QueryView::Clock),
            )
        } else {
            next_source(run)
        },
        (QueueStage::Timing(had), ReplyView::Time(t)) => begin_package(
            QueueRunView { at: run.at + 1, ..run },
            StepView::stop().with(
                EffectView::CompletePackage(
                    run.rows[run.at].id,
                    if had {
                        "available"@
                    } else {
                        "failed"@
                    },
                    t,
                ),
            ).report(
                if had {
                    "[smech-farmd] package "@ + run.package() + " now on NFS share\n"@
                } else {
                    "[smech-farmd] failed to download "@ + run.package() + "\n"@
                },
            ),
        ),
        _ => (run, StepView::stop()),
    }
}

/// The work on the queue before anything of it is done.
pub fn start_queue() -> (r: QueueRun)
    ensures
        r@ == queue_start(),
        r@.wf(),
{
    let r = QueueRun { rows: Vec::new(), at: 0, source: 0, stage: QueueStage::Start };
    assert(r@.rows =~= Seq::<PackageRowView>::empty());
    r
}

fn start_package(run: QueueRun, step: Step) -> (r: (QueueRun, Step))
    requires
        run.source < SOURCES,
    ensures
        (r.0@, r.1@) == begin_package(run@, step@),
        r.0@.wf(),
{
    if run.at < run.rows.len() {
        let row = &run.rows[run.at];
        assert(run@.rows[run.at as int] == row@);
        let line = "[smech-farmd] downloading package: ".to_string().concat(
            row.package_name.as_str(),
        ).concat(" ").concat(row.version.as_str()).concat("\n");
        let step = step.report(line).with(
            Effect::MarkPackage(row.id, "downloading".to_string()),
        ).with(Effect::MakeDir(NFS_PKG_PATH.to_string())).then_ask(
            Query::Run(download_cmd(row.package_name.as_str(), 0)),
        );
        (QueueRun { rows: run.rows, at: run.at, source: 0, stage: QueueStage::Fetching }, step)
    } else {
        (
            QueueRun { rows: run.rows, at: run.at, source: run.source, stage: QueueStage::Done },
            step,
        )
    }
}

/// Tries the next place that a package may be downloaded from, or gives up after the last.
pub fn download_package_to_nfs(run: QueueRun) -> (r: (QueueRun, Step))
    requires
        run@.wf(),
        run@.at < run@.rows.len(),
    ensures
        (r.0@, r.1@) == next_source(run@),
        r.0@.wf(),
{
    if run.source + 1 < SOURCES {
        let k = run.source + 1;
        assert(run@.rows[run.at as int] == run.rows@[run.at as int]@);
        let cmd = download_cmd(run.rows[run.at].package_name.as_str(), k);
        (
            QueueRun { rows: run.rows, at: run.at, source: k, stage: QueueStage::Fetching },
            Step::stop().then_ask(Query::Run(cmd)),
        )
    } else {
        (
            QueueRun {
                rows: run.rows,
                at: run.at,
                source: run.source,
                stage: QueueStage::Timing(false),
            },
            Step::stop().then_ask(Query::Clock),
        )
    }
}

/// How the work on the queue goes on: the first few pending packages are downloaded one by one,
/// each from the first place that has it.
pub fn process_package_queue(run: QueueRun, reply: Reply) -> (r: (QueueRun, Step))
    requires
        run@.wf(),
    ensures
        (r.0@, r.1@) == queue_step(run@, reply@),
        r.0@.wf(),
{
    match (run.stage, reply) {
        (QueueStage::Start, _) => (
            QueueRun {
                rows: run.rows,
                at: run.at,
                source: run.source,
                stage: QueueStage::Listing,
            },
            Step::stop().then_ask(Query::Packages),
        ),
        (QueueStage::Listing, Reply::Packages(rows)) => {
            start_package(
                QueueRun { rows: take_batch(rows), at: 0, source: 0, stage: QueueStage::Listing },
                Step::stop(),
            )
        },
        (QueueStage::Fetching, Reply::Status(s)) => {
            let ok = match s {
                Some(b) => b,
                None => false,
            };
            if ok {
                assert(run@.rows[run.at as int] == run.rows@[run.at as int]@);
                let file = package_file(run.rows[run.at].package_name.as_str());
                (
                    QueueRun {
                        rows: run.rows,
                        at: run.at,
                        source: run.source,
                        stage: QueueStage::Checking,
                    },
                    Step::stop().then_ask(Query::Exists(file)),
                )
            } else {
                download_package_to_nfs(run)
            }
        },
        (QueueStage::Checking, Reply::Found(b)) => {
            if b {
                (
                    QueueRun {
                        rows: run.rows,
                        at: run.at,
                        source: run.source,
                        stage: QueueStage::Timing(true),
                    },
                    Step::stop().then_ask(Query::Clock),
                )
            } else {
                download_package_to_nfs(run)
            }
        },
        (QueueStage::Timing(had), Reply::Time(t)) => {
            assert(run@.rows[run.at as int] == run.rows@[run.at as int]@);
            let row = &run.rows[run.at];
            let status = if had {
                "available".to_string()
            } else {
                "failed".to_string()
            };
            let line = if had {
                "[smech-farmd] package ".to_string().concat(row.package_name.as_str()).concat(
                    " now on NFS share\n",
                )
            } else {
                "[smech-farmd] failed to download ".to_string().concat(
                    row.package_name.as_str(),
                ).concat("\n")
            };
            let step = Step::stop().with(Effect::CompletePackage(row.id, status, t)).report(line);
            let n = run.rows.len();
            assert(run.at < n);
            let at = run.at + 1;
            start_package(
                QueueRun { rows: run.rows, at, source: run.source, stage: run.stage },
                step,
            )
        },
        _ => (run, Step::stop()),
    }
}

/// Whether a package is there for the workers.
pub open spec fn any_available(rows: Seq<PackageRowView>) -> bool {
    exists|i: int| 0 <= i < rows.len() && (#[trigger] rows[i]).status == "available"@
}

/// What tells the workers of packages: a flag with the time, where there are any.
pub open spec fn push_step(rows: Seq<PackageRowView>, now: i64) -> StepView {
    if any_available(rows) {
        StepView::stop().with(
            EffectView::WriteText(NFS_PKG_PATH@ + "/PACKAGES_READY"@, text::int_text(now as int)),
        )
    } else {
        StepView::stop()
    }
}

/// Tells the workers of packages, where there are any.
pub fn push_packages_to_workers(rows: &Vec<PackageRow>, now: i64) -> (r: Step)
    ensures
        r@ == push_step(records::views(rows@), now),
{
    let ghost all = records::views(rows@);
    for i in 0..rows.len()
        invariant
            all == records::views(rows@),
            forall|j: int| 0 <= j < i ==> (#[trigger] all[j]).status != "available"@,
    {
        assert(all[i as int] == rows@[i as int]@);
        if same(rows[i].status.as_str(), "available") {
            return Step::stop().with(
                Effect::WriteText(
                    NFS_PKG_PATH.to_string().concat("/PACKAGES_READY"),
                    integer(now),
                ),
            );
        }
    }
    Step::stop()
}

/// A package of the queue as the API shows it.
pub open spec fn queue_line(p: PackageRowView) -> Seq<char> {
    "{\"id\":"@ + text::int_text(p.id as int) + ",\"package\":\""@ + p.package_name
        + "\",\"version\":\""@ + p.version + "\",\"worker\":\""@ + p.worker_id
        + "\",\"status\":\""@ + p.status + "\",\"requested_at\":"@ + text::int_text(
        p.requested_at as int,
    ) + "}"@
}

/// When the packages were requested.
pub open spec fn request_times(rows: Seq<PackageRowView>) -> Seq<i64> {
    Seq::new(rows.len(), |i: int| rows[i].requested_at)
}

/// The queue as the API shows it: what was requested last comes first.
pub open spec fn queue_lines(rows: Seq<PackageRowView>) -> Seq<Seq<char>> {
    order::lines(
        rows,
        order::ordering(rows.len(), order::by_number_down(request_times(rows))),
        LISTED as nat,
        |p: PackageRowView| queue_line(p),
    )
}

/// How many rows of a long table the API shows.
pub const LISTED: usize = 100;

fn queue_entry(p: &PackageRow) -> (r: String)
    ensures
        r@ == queue_line(p@),
{
    "{\"id\":".to_string().concat(integer(p.id).as_str()).concat(",\"package\":\"").concat(
        p.package_name.as_str(),
    ).concat("\",\"version\":\"").concat(p.version.as_str()).concat("\",\"worker\":\"").concat(
        p.worker_id.as_str(),
    ).concat("\",\"status\":\"").concat(p.status.as_str()).concat(
        "\",\"requested_at\":",
    ).concat(integer(p.requested_at).as_str()).concat("}")
}

/// Shows the queue: what was requested last comes first, and only so many packages are shown.
pub fn api_queue(rows: &Vec<PackageRow>) -> (r: (i32, String))
    ensures
        (r.0, r.1@) == (200i32, json_text::array(queue_lines(records::views(rows@)))),
{
    let ghost all = records::views(rows@);
    let mut keys: Vec<i64> = Vec::new();
    for i in 0..rows.len()
        invariant
            all == records::views(rows@),
            keys@ == request_times(all).take(i as int),
    {
        assert(all[i as int] == rows@[i as int]@);
        keys.push(rows[i].requested_at);
        assert(keys@ =~= request_times(all).take(i + 1));
    }
    assert(keys@ =~= request_times(all));
    let order = order_by_number(&keys, true);
    let n = if order.len() < LISTED {
        order.len()
    } else {
        LISTED
    };
    let mut entries: Vec<String> = Vec::new();
    for i in 0..n
        invariant
            all == records::views(rows@),
            n <= order@.len(),
            n == queue_lines(all).len(),
            order::ints(order@) == order::ordering(
                all.len(),
                order::by_number_down(request_times(all)),
            ),
            forall|k: int| 0 <= k < order@.len() ==> #[trigger] order@[k] < rows@.len(),
            entries.deep_view() == queue_lines(all).take(i as int),
    {
        let k = order[i];
        assert(order::ints(order@)[i as int] == k);
        assert(all[k as int] == rows@[k as int]@);
        let entry = queue_entry(&rows[k]);
        assert(queue_lines(all)[i as int] == entry@);
        let ghost was = entries.deep_view();
        entries.push(entry);
        assert(entries.deep_view() =~= was.push(entry@));
        assert(was.push(entry@) =~= queue_lines(all).take(i + 1));
    }
    assert(queue_lines(all).take(n as int) =~= queue_lines(all));
    (200, json_array(&entries))
}

/// Whether no package is on its way to one worker twice.
pub open spec fn one_each(rows: Seq<PackageRowView>) -> bool {
    forall|i: int, j: int|
        0 <= i < j < rows.len() && is_active(#[trigger] rows[i].status) && is_active(
            #[trigger] rows[j].status,
        ) ==> rows[i].package_name != rows[j].package_name || rows[i].worker_id != rows[j].worker_id
}

/// A package that joined the queue is not added again for the same worker, whatever the version.
pub proof fn law_added_once(
    rows: Seq<PackageRowView>,
    req: QueueRequestView,
    now: i64,
    id: i64,
    again: QueueRequestView,
    later: i64,
)
    requires
        addition(rows, req, now) is Some,
        again.package_name == req.package_name,
        again.worker_id == req.worker_id,
    ensures
        addition(rows.push(joined_row(addition(rows, req, now)->0, id)), again, later) is None,
{
    let after = rows.push(joined_row(addition(rows, req, now)->0, id));
    assert(after[rows.len() as int].status == "pending"@);
    assert(queued(after, req.package_name, req.worker_id));
}

/// A package that failed can be asked for again.
pub proof fn law_failed_can_be_asked_again(
    rows: Seq<PackageRowView>,
    req: QueueRequestView,
    now: i64,
)
    requires
        forall|i: int|
            0 <= i < rows.len() && (#[trigger] rows[i]).package_name == req.package_name
                && rows[i].worker_id == req.worker_id ==> rows[i].status == "failed"@,
    ensures
        addition(rows, req, now) is Some,
{
    reveal_strlit("failed");
    reveal_strlit("pending");
    reveal_strlit("downloading");
    reveal_strlit("available");
    assert("failed"@[0] != "pending"@[0]);
    assert("failed"@[0] != "downloading"@[0]);
    assert("failed"@[0] != "available"@[0]);
}

/// Adding to the queue never puts a package on its way to one worker twice.
pub proof fn law_one_each_kept_by_adding(
    rows: Seq<PackageRowView>,
    req: QueueRequestView,
    now: i64,
    id: i64,
)
    requires
        one_each(rows),
        addition(rows, req, now) is Some,
    ensures
        one_each(rows.push(joined_row(addition(rows, req, now)->0, id))),
{
    let after = rows.push(joined_row(addition(rows, req, now)->0, id));
    assert forall|i: int, j: int|
        0 <= i < j < after.len() && is_active(#[trigger] after[i].status) && is_active(
            #[trigger] after[j].status,
        ) implies after[i].package_name != after[j].package_name || after[i].worker_id
        != after[j].worker_id by {
        assert(after[i] == rows[i]);
        if j < rows.len() {
            assert(after[j] == rows[j]);
            assert(is_active(rows[i].status) && is_active(rows[j].status));
        }
    }
}

/// Nor does another status for a package that is on its way.
pub proof fn law_one_each_kept_by_marking(rows: Seq<PackageRowView>, k: int, status: Seq<char>)
    requires
        one_each(rows),
        0 <= k < rows.len(),
        is_active(rows[k].status),
    ensures
        one_each(rows.update(k, (PackageRowView { status, ..rows[k] }))),
{
    let after = rows.update(k, PackageRowView { status, ..rows[k] });
    assert forall|i: int, j: int|
        0 <= i < j < after.len() && is_active(#[trigger] after[i].status) && is_active(
            #[trigger] after[j].status,
        ) implies after[i].package_name != after[j].package_name || after[i].worker_id
        != after[j].worker_id by {
        assert(is_active(rows[i].status));
        assert(is_active(rows[j].status));
    }
}

/// Where the work on the queue stands, and what it did last, once its questions got `replies`.
pub open spec fn queue_run(replies: Seq<ReplyView>) -> (QueueRunView, StepView)
    decreases replies.len(),
{
    if replies.len() == 0 {
        queue_step(queue_start(), ReplyView::Begin)
    } else {
        queue_step(queue_run(replies.drop_last()).0, replies.last())
    }
}

/// All that the work on the queue did on the way through `replies`, in order.
pub open spec fn queue_did(replies: Seq<ReplyView>) -> Seq<EffectView>
    decreases replies.len(),
{
    if replies.len() == 0 {
        queue_run(replies).1.effects
    } else {
        queue_did(replies.drop_last()) + queue_run(replies).1.effects
    }
}

/// Whether each of `replies` answers the question that was asked before it.
pub open spec fn answers(replies: Seq<ReplyView>) -> bool {
    forall|i: int|
        0 <= i < replies.len() ==> match queue_run(replies.take(i)).1.ask {
            Some(q) => work::fits(q, #[trigger] replies[i]),
            None => false,
        }
}

/// Whether the work on the queue is at its end after `replies`.
pub open spec fn finished(replies: Seq<ReplyView>) -> bool {
    answers(replies) && queue_run(replies).1.ask is None
}

/// The queue as it was when the work on it began.
pub open spec fn listed(replies: Seq<ReplyView>) -> Seq<PackageRowView> {
    replies[0]->Packages_0
}

/// Whether the reply numbered `i` is to an attempt at downloading the package numbered `k` of those
/// that were taken.
pub open spec fn attempt(replies: Seq<ReplyView>, i: int, k: int) -> bool {
    let run = queue_run(replies.take(i)).0;
    run.stage is Fetching && run.at == k
}

/// Whether some attempt at the package numbered `k` ended in success, with its file there.
pub open spec fn had(replies: Seq<ReplyView>, k: int) -> bool {
    exists|i: int|
        0 <= i < replies.len() - 1 && #[trigger] attempt(replies, i, k) && replies[i]
            == ReplyView::Status(Some(true)) && replies[i + 1] == ReplyView::Found(true)
}

/// Whether the package numbered `k` was tried at the place numbered `j`.
pub open spec fn tried(replies: Seq<ReplyView>, k: int, j: int) -> bool {
    exists|i: int|
        0 <= i < replies.len() && #[trigger] attempt(replies, i, k) && queue_run(
            replies.take(i),
        ).0.source == j
}

/// The times that were given, in order.
pub open spec fn times(replies: Seq<ReplyView>) -> Seq<i64>
    decreases replies.len(),
{
    if replies.len() == 0 {
        Seq::empty()
    } else {
        match replies.last() {
            ReplyView::Time(t) => times(replies.drop_last()).push(t),
            _ => times(replies.drop_last()),
        }
    }
}

/// What is done when the work on a package begins.
pub open spec fn opening(row: PackageRowView) -> Seq<EffectView> {
    StepView::stop().report(
        "[smech-farmd] downloading package: "@ + row.package_name + " "@ + row.version + "\n"@,
    ).with(EffectView::MarkPackage(row.id, "downloading"@)).with(
        EffectView::MakeDir(NFS_PKG_PATH@),
    ).effects
}

/// What is done when the work on a package ends, at the time `t`.
pub open spec fn closing(row: PackageRowView, had: bool, t: i64) -> Seq<EffectView> {
    StepView::stop().with(
        EffectView::CompletePackage(
            row.id,
            if had {
                "available"@
            } else {
                "failed"@
            },
            t,
        ),
    ).report(
        if had {
            "[smech-farmd] package "@ + row.package_name + " now on NFS share\n"@
        } else {
            "[smech-farmd] failed to download "@ + row.package_name + "\n"@
        },
    ).effects
}

/// What is done for the first `n` packages of `list`: each is marked as downloading, and then as
/// available or, where it was not had, as failed, at the time that was given for it.
pub open spec fn worked(list: Seq<PackageRowView>, n: int, replies: Seq<ReplyView>) -> Seq<
    EffectView,
>
    decreases n,
{
    if n <= 0 {
        Seq::empty()
    } else {
        worked(list, n - 1, replies) + opening(list[n - 1]) + closing(
            list[n - 1],
            had(replies, n - 1),
            times(replies)[n - 1],
        )
    }
}

/// The question that a run waits for the answer to.
pub open spec fn awaited(run: QueueRunView) -> Option<QueryView> {
    match run.stage {
        QueueStage::Start | QueueStage::Done => None,
        QueueStage::Listing => Some(QueryView::Packages),
        QueueStage::Fetching => Some(QueryView::Run(download_command(run.package(), run.source))),
        QueueStage::Checking => Some(QueryView::Exists(package_path(run.package()))),
        QueueStage::Timing(_) => Some(QueryView::Clock),
    }
}

/// Whether a package is being worked on.
spec fn busy(run: QueueRunView) -> bool {
    run.stage is Fetching || run.stage is Checking || run.stage is Timing
}

/// Where a run stands after `replies`.
spec fn on_the_way(replies: Seq<ReplyView>) -> bool {
    let run = queue_run(replies).0;
    &&& run.wf()
    &&& queue_run(replies).1.ask == awaited(run)
    &&& run.stage is Listing <==> replies.len() == 0
    &&& run.stage is Listing || run.stage is Done || busy(run)
    &&& replies.len() > 0 ==> replies[0] is Packages && run.rows == batch(listed(replies))
    &&& run.at <= run.rows.len()
    &&& run.stage is Done ==> run.at == run.rows.len()
    &&& times(replies).len() == run.at
    &&& run.stage is Checking ==> replies.last() == ReplyView::Status(Some(true)) && attempt(
        replies,
        replies.len() - 1,
        run.at,
    )
}

/// What was had and tried after `replies`, and what was done.
spec fn accounted(replies: Seq<ReplyView>) -> bool {
    let run = queue_run(replies).0;
    &&& forall|k: int|
        run.at < k || (run.at == k && !(run.stage is Timing)) ==> !#[trigger] had(replies, k)
    &&& run.stage matches QueueStage::Timing(b) ==> b == had(replies, run.at)
    &&& forall|k: int, j: int|
        0 <= k < run.at && !had(replies, k) && 0 <= j < SOURCES ==> #[trigger] tried(replies, k, j)
    &&& run.stage is Fetching || run.stage is Checking ==> forall|j: int|
        0 <= j < run.source ==> #[trigger] tried(replies, run.at, j)
    &&& run.stage is Checking ==> tried(replies, run.at, run.source)
    &&& run.stage == QueueStage::Timing(false) ==> forall|j: int|
        0 <= j < SOURCES ==> #[trigger] tried(replies, run.at, j)
    &&& queue_did(replies) == worked(run.rows, run.at, replies) + if busy(run) {
        opening(run.rows[run.at])
    } else {
        Seq::empty()
    }
}

proof fn lemma_earlier(replies: Seq<ReplyView>)
    requires
        replies.len() > 0,
    ensures
        answers(replies) ==> answers(replies.drop_last()),
        forall|i: int, k: int|
            0 <= i < replies.len() ==> #[trigger] attempt(replies.drop_last(), i, k) == attempt(
                replies,
                i,
                k,
            ),
        forall|k: int, j: int|
            #[trigger] tried(replies.drop_last(), k, j) ==> tried(replies, k, j),
{
    let old = replies.drop_last();
    assert forall|i: int| 0 <= i < replies.len() implies #[trigger] old.take(i) == replies.take(
        i,
    ) by {
        assert(old.take(i) =~= replies.take(i));
    }
    if answers(replies) {
        assert forall|i: int| 0 <= i < old.len() implies match queue_run(old.take(i)).1.ask {
            Some(q) => work::fits(q, #[trigger] old[i]),
            None => false,
        } by {
            assert(old[i] == replies[i]);
            assert(old.take(i) == replies.take(i));
        }
    }
    assert forall|i: int, k: int| 0 <= i < replies.len() implies #[trigger] attempt(old, i, k)
        == attempt(replies, i, k) by {
        assert(old.take(i) == replies.take(i));
    }
    assert forall|k: int, j: int| #[trigger] tried(old, k, j) implies tried(replies, k, j) by {
        let i = choose|i: int|
            0 <= i < old.len() && #[trigger] attempt(old, i, k) && queue_run(old.take(i)).0.source
                == j;
        assert(old.take(i) == replies.take(i));
        assert(attempt(replies, i, k));
    }
}

proof fn lemma_had_kept(replies: Seq<ReplyView>, k: int)
    requires
        replies.len() > 0,
        had(replies.drop_last(), k),
    ensures
        had(replies, k),
{
    let old = replies.drop_last();
    lemma_earlier(replies);
    let i = choose|i: int|
        0 <= i < old.len() - 1 && #[trigger] attempt(old, i, k) && old[i] == ReplyView::Status(
            Some(true),
        ) && old[i + 1] == ReplyView::Found(true);
    assert(attempt(replies, i, k));
    assert(old[i] == replies[i] && old[i + 1] == replies[i + 1]);
}

proof fn lemma_had_before(replies: Seq<ReplyView>, k: int)
    requires
        replies.len() > 0,
        had(replies, k),
    ensures
        had(replies.drop_last(), k) || ({
            let run = queue_run(replies.drop_last()).0;
            run.stage is Checking && run.at == k && replies.last() == ReplyView::Found(true)
        }),
{
    let old = replies.drop_last();
    lemma_earlier(replies);
    let i = choose|i: int|
        0 <= i < replies.len() - 1 && #[trigger] attempt(replies, i, k) && replies[i]
            == ReplyView::Status(Some(true)) && replies[i + 1] == ReplyView::Found(true);
    assert(attempt(old, i, k));
    if i < old.len() - 1 {
        assert(old[i] == replies[i] && old[i + 1] == replies[i + 1]);
        assert(had(old, k));
    } else {
        assert(old.take(i) =~= old.drop_last());
        assert(old.last() == replies[i]);
    }
}

proof fn lemma_had(replies: Seq<ReplyView>, k: int)
    requires
        replies.len() > 0,
        on_the_way(replies.drop_last()),
    ensures
        had(replies, k) == (had(replies.drop_last(), k) || ({
            let run = queue_run(replies.drop_last()).0;
            run.stage is Checking && run.at == k && replies.last() == ReplyView::Found(true)
        })),
{
    let old = replies.drop_last();
    let run = queue_run(old).0;
    if had(replies, k) {
        lemma_had_before(replies, k);
    } else if had(old, k) {
        lemma_had_kept(replies, k);
    } else if run.stage is Checking && run.at == k && replies.last() == ReplyView::Found(true) {
        lemma_earlier(replies);
        let i = old.len() - 1;
        assert(attempt(old, i, k));
        assert(attempt(replies, i, k));
        assert(replies[i] == old.last());
        assert(replies[i + 1] == replies.last());
    }
}

proof fn lemma_tried_now(replies: Seq<ReplyView>)
    requires
        replies.len() > 0,
        queue_run(replies.drop_last()).0.stage is Fetching,
    ensures
        ({
            let run = queue_run(replies.drop_last()).0;
            &&& attempt(replies, replies.len() - 1, run.at)
            &&& tried(replies, run.at, run.source)
        }),
{
    assert(replies.take(replies.len() - 1) =~= replies.drop_last());
    assert(attempt(replies, replies.len() - 1, queue_run(replies.drop_last()).0.at));
}

proof fn lemma_worked_stays(list: Seq<PackageRowView>, n: int, replies: Seq<ReplyView>)
    requires
        replies.len() > 0,
        on_the_way(replies.drop_last()),
        n <= queue_run(replies.drop_last()).0.at,
    ensures
        worked(list, n, replies) == worked(list, n, replies.drop_last()),
    decreases n,
{
    if n > 0 {
        lemma_worked_stays(list, n - 1, replies);
        lemma_had(replies, n - 1);
        assert(times(replies)[n - 1] == times(replies.drop_last())[n - 1]);
    }
}

proof fn lemma_on_the_way(replies: Seq<ReplyView>)
    requires
        answers(replies),
    ensures
        on_the_way(replies),
    decreases replies.len(),
{
    if replies.len() > 0 {
        let old = replies.drop_last();
        let n = replies.len() - 1;
        lemma_earlier(replies);
        lemma_on_the_way(old);
        assert(replies.take(n) =~= old);
        assert(replies[n] == replies.last());
        let run = queue_run(old).0;
        if old.len() > 0 {
            assert(replies[0] == old[0]);
        }
        if run.stage is Fetching {
            lemma_tried_now(replies);
        }
    }
}

proof fn lemma_accounted(replies: Seq<ReplyView>)
    requires
        answers(replies),
    ensures
        accounted(replies),
    decreases replies.len(),
{
    lemma_on_the_way(replies);
    if replies.len() == 0 {
        assert(queue_did(replies) =~= Seq::<EffectView>::empty());
        assert(worked(queue_run(replies).0.rows, 0, replies) =~= Seq::<EffectView>::empty());
    } else {
        let old = replies.drop_last();
        let n = replies.len() - 1;
        lemma_earlier(replies);
        lemma_on_the_way(old);
        lemma_accounted(old);
        assert(replies.take(n) =~= old);
        assert(replies[n] == replies.last());
        let run = queue_run(old).0;
        let next = queue_run(replies).0;
        assert forall|k: int| true implies #[trigger] had(replies, k) == (had(old, k) || (
        run.stage is Checking && run.at == k && replies.last() == ReplyView::Found(true))) by {
            lemma_had(replies, k);
        }
        if run.stage is Fetching {
            lemma_tried_now(replies);
        }
        lemma_worked_stays(next.rows, run.at, replies);
        assert forall|k: int, j: int|
            0 <= k < next.at && !had(replies, k) && 0 <= j < SOURCES implies #[trigger] tried(
            replies,
            k,
            j,
        ) by {
            assert(!had(old, k));
            assert(tried(old, k, j));
        }
        assert forall|j: int|
            (next.stage is Fetching || next.stage is Checking) && 0 <= j
                < next.source implies #[trigger] tried(replies, next.at, j) by {
            if j < run.source {
                assert(tried(old, run.at, j));
            }
        }
        assert forall|j: int|
            next.stage == QueueStage::Timing(false) && 0 <= j < SOURCES implies #[trigger] tried(
            replies,
            next.at,
            j,
        ) by {
            if j < run.source {
                assert(tried(old, run.at, j));
            }
        }
        lemma_did(replies);
    }
}

proof fn lemma_did(replies: Seq<ReplyView>)
    requires
        replies.len() > 0,
        answers(replies),
        on_the_way(replies),
        on_the_way(replies.drop_last()),
        accounted(replies.drop_last()),
    ensures
        ({
            let run = queue_run(replies).0;
            queue_did(replies) == worked(run.rows, run.at, replies) + if busy(run) {
                opening(run.rows[run.at])
            } else {
                Seq::empty()
            }
        }),
{
    let old = replies.drop_last();
    let n = replies.len() - 1;
    assert(replies.take(n) =~= old);
    assert(replies[n] == replies.last());
    let run = queue_run(old).0;
    let next = queue_run(replies).0;
    lemma_worked_stays(next.rows, run.at, replies);
    lemma_had(replies, run.at);
    let tail = if busy(next) {
        opening(next.rows[next.at])
    } else {
        Seq::empty()
    };
    match run.stage {
        QueueStage::Listing => {
            assert(queue_did(old) =~= Seq::<EffectView>::empty());
            assert(queue_run(replies).1.effects =~= tail);
            assert(queue_did(replies) =~= worked(next.rows, next.at, replies) + tail);
        },
        QueueStage::Timing(b) => {
            let end = closing(run.rows[run.at], b, replies.last()->Time_0);
            assert(times(replies)[run.at] == replies.last()->Time_0);
            assert(queue_run(replies).1.effects =~= end + tail);
            assert(queue_did(replies) =~= worked(next.rows, next.at, replies) + tail);
        },
        _ => {
            assert(queue_run(replies).1.effects =~= Seq::<EffectView>::empty());
            assert(queue_did(replies) =~= worked(next.rows, next.at, replies) + tail);
        },
    }
}

/// How many answers the work on the queue waits for at most.
spec fn left(run: QueueRunView) -> int {
    let rest = run.rows.len() - run.at;
    match run.stage {
        QueueStage::Start | QueueStage::Done => 0,
        QueueStage::Listing => 1 + 7 * BATCH,
        QueueStage::Fetching => 7 * rest - 2 * run.source,
        QueueStage::Checking => 7 * rest - 2 * run.source - 1,
        QueueStage::Timing(_) => 7 * rest - 6,
    }
}

/// The work on the queue comes to an end, whatever it is answered: it asks for the queue, and for
/// each of the first few pending packages at most twice at each place and once for the time.
pub proof fn law_queue_work_ends(replies: Seq<ReplyView>)
    requires
        answers(replies),
    ensures
        replies.len() <= 1 + (2 * SOURCES + 1) * BATCH,
        replies.len() == 1 + (2 * SOURCES + 1) * BATCH ==> finished(replies),
        finished(replies) <==> queue_run(replies).0.stage is Done,
{
    lemma_left(replies);
    lemma_on_the_way(replies);
}

proof fn lemma_left(replies: Seq<ReplyView>)
    requires
        answers(replies),
    ensures
        replies.len() + left(queue_run(replies).0) <= 1 + 7 * BATCH,
        left(queue_run(replies).0) >= 0,
        left(queue_run(replies).0) == 0 ==> queue_run(replies).0.stage is Done,
    decreases replies.len(),
{
    lemma_on_the_way(replies);
    if replies.len() > 0 {
        let old = replies.drop_last();
        let n = replies.len() - 1;
        lemma_earlier(replies);
        lemma_on_the_way(old);
        lemma_left(old);
        assert(replies.take(n) =~= old);
        assert(replies[n] == replies.last());
    }
}

/// Each attempt at a package is a download of that package from one of the places; and one that
/// ended in success is followed by a look for the package's file.
pub proof fn law_attempts_download(replies: Seq<ReplyView>, i: int, k: int)
    requires
        answers(replies),
        0 <= i < replies.len(),
        attempt(replies, i, k),
    ensures
        ({
            let package = batch(listed(replies))[k].package_name;
            let place = queue_run(replies.take(i)).0.source;
            &&& 0 <= k < batch(listed(replies)).len()
            &&& 0 <= place < SOURCES
            &&& queue_run(replies.take(i)).1.ask == Some(
                QueryView::Run(download_command(package, place)),
            )
            &&& replies[i] == ReplyView::Status(Some(true)) ==> queue_run(
                replies.take(i + 1),
            ).1.ask == Some(QueryView::Exists(package_path(package)))
        }),
{
    let before = replies.take(i);
    lemma_answers_take(replies, i);
    lemma_on_the_way(before);
    assert(before[0] == replies[0]);
    assert(replies.take(i + 1).drop_last() =~= before);
    assert(replies.take(i + 1).last() == replies[i]);
}

proof fn lemma_answers_take(replies: Seq<ReplyView>, i: int)
    requires
        answers(replies),
        0 <= i <= replies.len(),
    ensures
        answers(replies.take(i)),
    decreases replies.len() - i,
{
    if i == replies.len() {
        assert(replies.take(i) =~= replies);
    } else {
        lemma_answers_take(replies, i + 1);
        lemma_earlier(replies.take(i + 1));
        assert(replies.take(i + 1).drop_last() =~= replies.take(i));
    }
}

/// A package that was not had was tried at every place.
pub proof fn law_given_up_after_the_last_place(replies: Seq<ReplyView>, k: int, j: int)
    requires
        finished(replies),
        0 <= k < batch(listed(replies)).len(),
        !had(replies, k),
        0 <= j < SOURCES,
    ensures
        tried(replies, k, j),
{
    lemma_on_the_way(replies);
    lemma_accounted(replies);
}

/// When the work on the queue is at its end, it has done for each of the first few pending packages,
/// in their order, just this: it marked it as downloading, and then as available where some attempt
/// at it succeeded and as failed where none did, with the time that was given then.
pub proof fn law_queue_is_worked_off(replies: Seq<ReplyView>)
    requires
        finished(replies),
    ensures
        replies.len() > 0,
        replies[0] is Packages,
        times(replies).len() == batch(listed(replies)).len(),
        queue_did(replies) == worked(
            batch(listed(replies)),
            batch(listed(replies)).len() as int,
            replies,
        ),
{
    lemma_on_the_way(replies);
    lemma_accounted(replies);
    assert(queue_did(replies) =~= worked(
        batch(listed(replies)),
        batch(listed(replies)).len() as int,
        replies,
    ));
}

/// The API shows what was requested last first, and shows every package while the table is short.
pub proof fn law_queue_listing(rows: Seq<PackageRowView>, a: int, b: int)
    requires
        0 <= a < b < queue_lines(rows).len(),
    ensures
        ({
            let order = order::ordering(rows.len(), order::by_number_down(request_times(rows)));
            &&& queue_lines(rows)[a] == queue_line(rows[order[a]])
            &&& 0 <= order[a] < rows.len()
            &&& 0 <= order[b] < rows.len()
            &&& order[a] != order[b]
            &&& rows[order[a]].requested_at >= rows[order[b]].requested_at
            &&& rows.len() <= LISTED ==> queue_lines(rows).len() == rows.len()
        }),
{
    let keys = request_times(rows);
    order::law_orders(Seq::empty(), keys);
    order::law_ordering(rows.len(), keys.len(), order::by_number_down(keys));
    let order = order::ordering(rows.len(), order::by_number_down(keys));
    assert(order::by_number_down(keys)(order[a], order[b]));
}

/// The queue once the package `id` has another status.
pub open spec fn marked(rows: Seq<PackageRowView>, id: i64, status: Seq<char>) -> Seq<
    PackageRowView,
> {
    Seq::new(
        rows.len(),
        |i: int|
            if rows[i].id == id {
                PackageRowView { status, ..rows[i] }
            } else {
                rows[i]
            },
    )
}

/// The queue once `effects` were carried out.
pub open spec fn carried_out(rows: Seq<PackageRowView>, effects: Seq<EffectView>) -> Seq<
    PackageRowView,
>
    decreases effects.len(),
{
    if effects.len() == 0 {
        rows
    } else {
        let before = carried_out(rows, effects.drop_last());
        match effects.last() {
            EffectView::MarkPackage(id, status) => marked(before, id, status),
            EffectView::CompletePackage(id, status, _) => marked(before, id, status),
            _ => before,
        }
    }
}

/// Whether no two packages have one number.
pub open spec fn numbered(rows: Seq<PackageRowView>) -> bool {
    forall|i: int, j: int|
        0 <= i < j < rows.len() ==> (#[trigger] rows[i]).id != (#[trigger] rows[j]).id
}

/// The status that the package numbered `k` of those that were taken ends with.
pub open spec fn outcome(replies: Seq<ReplyView>, k: int) -> Seq<char> {
    if had(replies, k) {
        "available"@
    } else {
        "failed"@
    }
}

proof fn lemma_carried_out(rows: Seq<PackageRowView>, a: Seq<EffectView>, b: Seq<EffectView>)
    ensures
        carried_out(rows, a + b) == carried_out(carried_out(rows, a), b),
    decreases b.len(),
{
    if b.len() == 0 {
        assert(a + b =~= a);
    } else {
        lemma_carried_out(rows, a, b.drop_last());
        assert((a + b).drop_last() =~= a + b.drop_last());
        assert((a + b).last() == b.last());
    }
}

proof fn lemma_one_package(rows: Seq<PackageRowView>, row: PackageRowView, had: bool, t: i64)
    ensures
        carried_out(rows, opening(row) + closing(row, had, t)) == marked(
            rows,
            row.id,
            if had {
                "available"@
            } else {
                "failed"@
            },
        ),
{
    let end = if had {
        "available"@
    } else {
        "failed"@
    };
    let o = opening(row);
    let c = closing(row, had, t);
    assert(carried_out(rows, o) == marked(rows, row.id, "downloading"@)) by {
        assert(o.len() == 3);
        let o2 = o.drop_last();
        let o1 = o2.drop_last();
        assert(o1.drop_last() =~= Seq::<EffectView>::empty());
        assert(carried_out(rows, o1.drop_last()) == rows);
        assert(carried_out(rows, o1) == rows);
        assert(carried_out(rows, o2) == marked(rows, row.id, "downloading"@));
    }
    let mid = marked(rows, row.id, "downloading"@);
    assert(carried_out(mid, c) == marked(mid, row.id, end)) by {
        assert(c.len() == 2);
        let c1 = c.drop_last();
        assert(c1.drop_last() =~= Seq::<EffectView>::empty());
        assert(carried_out(mid, c1.drop_last()) == mid);
        assert(carried_out(mid, c1) == marked(mid, row.id, end));
    }
    assert(marked(mid, row.id, end) =~= marked(rows, row.id, end));
    lemma_carried_out(rows, o, c);
}

proof fn lemma_worked(
    rows: Seq<PackageRowView>,
    list: Seq<PackageRowView>,
    n: int,
    replies: Seq<ReplyView>,
    i: int,
)
    requires
        0 <= n <= list.len(),
        0 <= i < rows.len(),
        numbered(list),
    ensures
        ({
            let after = carried_out(rows, worked(list, n, replies));
            &&& after.len() == rows.len()
            &&& after[i].id == rows[i].id
            &&& forall|k: int|
                0 <= k < n && (#[trigger] list[k]).id == rows[i].id ==> after[i] == (
                PackageRowView { status: outcome(replies, k), ..rows[i] })
            &&& (forall|k: int| 0 <= k < n ==> (#[trigger] list[k]).id != rows[i].id)
                ==> after[i] == rows[i]
        }),
    decreases n,
{
    if n > 0 {
        let row = list[n - 1];
        let ok = had(replies, n - 1);
        let t = times(replies)[n - 1];
        let first = worked(list, n - 1, replies);
        let one = opening(row) + closing(row, ok, t);
        assert(worked(list, n, replies) =~= first + one);
        lemma_worked(rows, list, n - 1, replies, i);
        lemma_carried_out(rows, first, one);
        let mid = carried_out(rows, first);
        lemma_one_package(mid, row, ok, t);
        let after = carried_out(rows, worked(list, n, replies));
        assert(after == marked(mid, row.id, outcome(replies, n - 1)));
        assert forall|k: int| 0 <= k < n && (#[trigger] list[k]).id == rows[i].id implies after[i]
            == (PackageRowView { status: outcome(replies, k), ..rows[i] }) by {
            if k < n - 1 {
                assert(list[k].id != list[n - 1].id);
            } else {
                assert forall|m: int| 0 <= m < n - 1 implies (#[trigger] list[m]).id
                    != rows[i].id by {
                    assert(list[m].id != list[n - 1].id);
                }
            }
        }
    }
}

proof fn lemma_batch(rows: Seq<PackageRowView>)
    requires
        numbered(rows),
    ensures
        numbered(batch(rows)),
        forall|k: int|
            0 <= k < batch(rows).len() ==> rows.contains(#[trigger] batch(rows)[k]) && batch(
                rows,
            )[k].status == "pending"@,
{
    lemma_pending(rows);
    assert forall|k: int| 0 <= k < batch(rows).len() implies rows.contains(
        #[trigger] batch(rows)[k],
    ) && batch(rows)[k].status == "pending"@ by {
        assert(batch(rows)[k] == pending(rows)[k]);
    }
    assert forall|i: int, j: int| 0 <= i < j < batch(rows).len() implies (#[trigger] batch(rows)[i]).id
        != (#[trigger] batch(rows)[j]).id by {
        assert(batch(rows)[i] == pending(rows)[i]);
        assert(batch(rows)[j] == pending(rows)[j]);
    }
}

proof fn lemma_pending(rows: Seq<PackageRowView>)
    requires
        numbered(rows),
    ensures
        numbered(pending(rows)),
        forall|k: int|
            0 <= k < pending(rows).len() ==> rows.contains(#[trigger] pending(rows)[k]) && pending(
                rows,
            )[k].status == "pending"@,
        forall|i: int|
            0 <= i < rows.len() && (#[trigger] rows[i]).status == "pending"@ ==> pending(
                rows,
            ).contains(rows[i]),
    decreases rows.len(),
{
    reveal(Seq::filter);
    if rows.len() > 0 {
        let rest = rows.drop_last();
        let n = rows.len() - 1;
        let last = rows[n];
        assert forall|i: int, j: int| 0 <= i < j < rest.len() implies (#[trigger] rest[i]).id != (
        #[trigger] rest[j]).id by {
            assert(rows[i].id != rows[j].id);
        }
        lemma_pending(rest);
        let p = pending(rest);
        let q = pending(rows);
        assert forall|k: int| 0 <= k < p.len() implies rows.contains(#[trigger] p[k]) && p[k].id
            != last.id by {
            assert(rest.contains(p[k]));
            let m = choose|m: int| 0 <= m < rest.len() && rest[m] == p[k];
            assert(rows[m] == p[k]);
            assert(rows[m].id != rows[n].id);
        }
        if last.status == "pending"@ {
            assert(q =~= p.push(last));
            assert(q[p.len() as int] == last);
            assert(rows.contains(last));
        } else {
            assert(q =~= p);
        }
        assert forall|i: int| 0 <= i < rows.len() && (#[trigger] rows[i]).status
            == "pending"@ implies q.contains(rows[i]) by {
            if i < n {
                assert(rest[i] == rows[i]);
                assert(p.contains(rest[i]));
                let k = choose|k: int| 0 <= k < p.len() && p[k] == rest[i];
                assert(q[k] == rows[i]);
            }
        }
    }
}

/// What working the queue off makes of it: each package that was taken ends as available where some
/// attempt at it succeeded and as failed where none did, and every other package stays as it is.
pub proof fn law_queue_after_work(replies: Seq<ReplyView>, i: int)
    requires
        finished(replies),
        numbered(listed(replies)),
        0 <= i < listed(replies).len(),
    ensures
        ({
            let rows = listed(replies);
            let after = carried_out(rows, queue_did(replies));
            &&& after.len() == rows.len()
            &&& forall|k: int|
                0 <= k < batch(rows).len() && #[trigger] batch(rows)[k] == rows[i] ==> after[i] == (
                PackageRowView { status: outcome(replies, k), ..rows[i] })
            &&& !batch(rows).contains(rows[i]) ==> after[i] == rows[i]
        }),
{
    let rows = listed(replies);
    let list = batch(rows);
    law_queue_is_worked_off(replies);
    lemma_batch(rows);
    lemma_worked(rows, list, list.len() as int, replies, i);
    if !list.contains(rows[i]) {
        assert forall|k: int| 0 <= k < list.len() implies (#[trigger] list[k]).id != rows[i].id by {
            assert(rows.contains(list[k]));
            let m = choose|m: int| 0 <= m < rows.len() && rows[m] == list[k];
            if m < i {
                assert(rows[m].id != rows[i].id);
            } else if m > i {
                assert(rows[i].id != rows[m].id);
            }
        }
    }
}

/// Where no more packages are pending than are taken at a time, none is pending afterwards.
pub proof fn law_short_queue_is_emptied(replies: Seq<ReplyView>, i: int)
    requires
        finished(replies),
        numbered(listed(replies)),
        pending(listed(replies)).len() <= BATCH,
        0 <= i < listed(replies).len(),
    ensures
        carried_out(listed(replies), queue_did(replies))[i].status != "pending"@,
{
    let rows = listed(replies);
    law_queue_after_work(replies, i);
    lemma_pending(rows);
    reveal_strlit("pending");
    reveal_strlit("available");
    reveal_strlit("failed");
    assert("available"@[0] != "pending"@[0]);
    assert("failed"@[0] != "pending"@[0]);
    if batch(rows).contains(rows[i]) {
        let k = choose|k: int| 0 <= k < batch(rows).len() && batch(rows)[k] == rows[i];
        assert(batch(rows)[k] == rows[i]);
    }
}

/// Where a package is downloaded from: the first attempt asks KDE's frameworks, the second KDE's
/// Plasma, and the third the package's own project on GitHub. Each is one quiet download to the
/// package's archive on the share, and the three ask for three different addresses.
pub proof fn law_place_of_each_attempt(package: Seq<char>, k: int)
    requires
        0 <= k < 3,
    ensures
        ({
            let c = download_command(package, k);
            &&& c.len() == 7
            &&& c[0] == "curl"@ && c[1] == "-sfL"@ && c[2] == "--max-time"@ && c[3] == "120"@ && c[4]
                == "-o"@
            &&& c[5] == "/srv/smech-farm/packages/"@ + package + ".tar.xz"@
            &&& k == 0 ==> c[6] == "https://download.kde.org/stable/frameworks/6.27/"@ + package
                + "-6.27.0.tar.xz"@
            &&& k == 1 ==> c[6] == "https://download.kde.org/stable/plasma/6.7.2/"@ + package
                + "-6.7.2.tar.xz"@
            &&& k == 2 ==> c[6] == "https://github.com/"@ + package + "/"@ + package
                + "/releases/latest/download/"@ + package + ".tar.xz"@
        }),
        download_command(package, 0).last() != download_command(package, 1).last(),
        download_command(package, 0).last() != download_command(package, 2).last(),
        download_command(package, 1).last() != download_command(package, 2).last(),
{
    law_archive_on_the_share(package);
    reveal_strlit("https://download.kde.org/stable/frameworks/6.27/");
    reveal_strlit("https://download.kde.org/stable/plasma/6.7.2/");
    reveal_strlit("https://github.com/");
    let a = download_command(package, 0).last();
    let b = download_command(package, 1).last();
    let c = download_command(package, 2).last();
    assert(a[32] == 'f');
    assert(b[32] == 'p');
    assert(a[8] == 'd');
    assert(b[8] == 'd');
    assert(c[8] == 'g');
}

/// A package's archive lies on the share, under the package's name; so two packages have two.
pub proof fn law_archive_on_the_share(package: Seq<char>)
    ensures
        package_path(package) == "/srv/smech-farm/packages/"@ + package + ".tar.xz"@,
        forall|other: Seq<char>| #[trigger] package_path(other) == package_path(package) ==> other
            == package,
{
    reveal_strlit("/srv/smech-farm/packages/");
    reveal_strlit("/srv/smech-farm/packages");
    reveal_strlit("/");
    assert(NFS_PKG_PATH@ + "/"@ =~= "/srv/smech-farm/packages/"@);
    assert forall|other: Seq<char>| #[trigger] package_path(other) == package_path(
        package,
    ) implies other == package by {
        text::lemma_same_middle(NFS_PKG_PATH@ + "/"@, other, package, ".tar.xz"@);
    }
}

/// How the places are tried: the first pending package is asked for at the first place; an attempt
/// that fails, or leaves no file, leads to the next place, and after the third place the package is
/// given up; one that leaves its file ends the search.
pub proof fn law_places_in_turn(run: QueueRunView, rows: Seq<PackageRowView>, s: Option<bool>)
    requires
        run.wf(),
        run.at < run.rows.len(),
    ensures
        ({
            let l = queue_step(
                QueueRunView { stage: QueueStage::Listing, ..run },
                ReplyView::Packages(rows),
            );
            let f = QueueRunView { stage: QueueStage::Fetching, ..run };
            let c = QueueRunView { stage: QueueStage::Checking, ..run };
            let fetched = queue_step(f, ReplyView::Status(s));
            let missing = queue_step(c, ReplyView::Found(false));
            let there = queue_step(c, ReplyView::Found(true));
            let package = run.rows[run.at].package_name;
            &&& batch(rows).len() > 0 ==> l.0.at == 0 && l.0.source == 0 && l.1.ask == Some(
                QueryView::Run(download_command(batch(rows)[0].package_name, 0)),
            )
            &&& batch(rows).len() == 0 ==> l.0.stage is Done && l.1 == StepView::stop()
            &&& s == Some(true) ==> fetched.1.ask == Some(QueryView::Exists(package_path(package)))
                && fetched.1.effects.len() == 0
            &&& s != Some(true) ==> fetched == missing
            &&& missing.0.at == run.at && missing.1.effects.len() == 0
            &&& run.source < 2 ==> missing.0.source == run.source + 1 && missing.1.ask == Some(
                QueryView::Run(download_command(package, run.source + 1)),
            )
            &&& run.source == 2 ==> missing.0.stage == QueueStage::Timing(false) && missing.1.ask
                == Some(QueryView::Clock)
            &&& there.0.stage == QueueStage::Timing(true) && there.1.ask == Some(QueryView::Clock)
                && there.1.effects.len() == 0
        }),
{
}

/// How the work on a package is noted: it is marked as downloading when it begins, and, at the time
/// that is given, as available where it was had and as failed where it was not; the next package of
/// those that were taken is then asked for at the first place.
pub proof fn law_package_is_noted(run: QueueRunView, had_it: bool, t: i64)
    requires
        run.wf(),
        run.at < run.rows.len(),
    ensures
        ({
            let row = run.rows[run.at];
            let next = queue_step(
                QueueRunView { stage: QueueStage::Timing(had_it), ..run },
                ReplyView::Time(t),
            );
            let e = next.1.effects;
            &&& e.len() >= 2
            &&& e[0] == EffectView::CompletePackage(
                row.id,
                if had_it {
                    "available"@
                } else {
                    "failed"@
                },
                t,
            )
            &&& e[1] == EffectView::Report(
                if had_it {
                    "[smech-farmd] package "@ + row.package_name + " now on NFS share\n"@
                } else {
                    "[smech-farmd] failed to download "@ + row.package_name + "\n"@
                },
            )
            &&& run.at + 1 == run.rows.len() ==> e.len() == 2 && next.0.stage is Done && next.1.ask
                is None
            &&& run.at + 1 < run.rows.len() ==> {
                let more = run.rows[run.at + 1];
                &&& e.len() == 5
                &&& e[2] == EffectView::Report(
                    "[smech-farmd] downloading package: "@ + more.package_name + " "@ + more.version
                        + "\n"@,
                )
                &&& e[3] == EffectView::MarkPackage(more.id, "downloading"@)
                &&& e[4] == EffectView::MakeDir("/srv/smech-farm/packages"@)
                &&& next.1.ask == Some(QueryView::Run(download_command(more.package_name, 0)))
                &&& next.0.at == run.at + 1
            }
        }),
{
}

/// What is taken from the queue: pending packages, in their order, and no more than twenty.
pub proof fn law_what_is_taken(rows: Seq<PackageRowView>, p: PackageRowView)
    ensures
        batch(Seq::empty()).len() == 0,
        batch(rows).len() <= 20,
        batch(rows.push(p)) == if p.status == "pending"@ && batch(rows).len() < 20 {
            batch(rows).push(p)
        } else {
            batch(rows)
        },
{
    reveal(Seq::filter);
    assert(rows.push(p).drop_last() =~= rows);
    let f = pending(rows);
    if p.status == "pending"@ {
        assert(pending(rows.push(p)) == f.push(p));
        if f.len() >= 20 {
            assert(f.push(p).take(20) =~= f.take(20));
            if f.len() == 20 {
                assert(f.take(20) =~= f);
            }
        }
    } else {
        assert(pending(rows.push(p)) == f);
    }
}

/// What joins the queue: the package, the version, or none, and the worker of the request, pending,
/// and at the given time; and just where no package of that name is pending, downloading or
/// available for that worker.
pub proof fn law_what_joins(rows: Seq<PackageRowView>, req: QueueRequestView, now: i64)
    ensures
        ({
            let on_its_way = exists|i: int|
                0 <= i < rows.len() && (#[trigger] rows[i]).package_name == req.package_name
                    && rows[i].worker_id == req.worker_id && (rows[i].status == "pending"@
                    || rows[i].status == "downloading"@ || rows[i].status == "available"@);
            let row = NewPackageView {
                package_name: req.package_name,
                version: match req.version {
                    Some(v) => v,
                    None => Seq::empty(),
                },
                worker_id: req.worker_id,
                status: "pending"@,
                requested_at: now,
            };
            &&& addition(rows, req, now) == if on_its_way {
                None
            } else {
                Some(row)
            }
            &&& queue_add_answer(rows, Some(req), now) == if on_its_way {
                (200i32, "{\"ok\":true,\"msg\":\"already queued\"}"@, None)
            } else {
                (200i32, "{\"ok\":true,\"msg\":\"queued\"}"@, Some(row))
            }
        }),
        queue_add_answer(rows, None, now) == (
            400i32,
            "{\"error\":\"bad request\"}"@,
            None::<NewPackageView>,
        ),
{
    if queued(rows, req.package_name, req.worker_id) {
        let i = choose|i: int|
            0 <= i < rows.len() && (#[trigger] rows[i]).package_name == req.package_name
                && rows[i].worker_id == req.worker_id && is_active(rows[i].status);
        assert(rows[i].package_name == req.package_name);
    }
}

/// The workers are told of packages just where one of the queue is available: the flag on the share
/// is then written, with the time. Where every package is pending, downloading or failed, nothing
/// is done.
pub proof fn law_flag_is_for_available_packages(rows: Seq<PackageRowView>, now: i64)
    ensures
        push_step(rows, now).ask is None,
        push_step(rows, now).effects.len() <= 1,
        push_step(rows, now).effects.len() == 1 <==> exists|i: int|
            0 <= i < rows.len() && (#[trigger] rows[i]).status == "available"@,
        push_step(rows, now).effects.len() == 1 ==> push_step(rows, now).effects[0]
            == EffectView::WriteText(
            "/srv/smech-farm/packages/PACKAGES_READY"@,
            text::int_text(now as int),
        ),
        (forall|i: int|
            0 <= i < rows.len() ==> (#[trigger] rows[i]).status == "pending"@ || rows[i].status
                == "downloading"@ || rows[i].status == "failed"@) ==> push_step(rows, now)
            == StepView::stop(),
{
    reveal_strlit("/srv/smech-farm/packages/PACKAGES_READY");
    reveal_strlit("/srv/smech-farm/packages");
    reveal_strlit("/PACKAGES_READY");
    assert(NFS_PKG_PATH@ + "/PACKAGES_READY"@ =~= "/srv/smech-farm/packages/PACKAGES_READY"@);
    reveal_strlit("available");
    reveal_strlit("pending");
    reveal_strlit("downloading");
    reveal_strlit("failed");
    assert("available"@[0] == 'a');
    assert("pending"@[0] == 'p');
    assert("downloading"@[0] == 'd');
    assert("failed"@[0] == 'f');
}

/// What the API shows of a package: its number, its name, its version, its worker, its own status,
/// and when it was requested.
pub proof fn law_queue_line(p: PackageRowView)
    ensures
        queue_line(p) == "{\"id\":"@ + text::int_text(p.id as int) + ",\"package\":\""@
            + p.package_name + "\",\"version\":\""@ + p.version + "\",\"worker\":\""@ + p.worker_id
            + "\",\"status\":\""@ + p.status + "\",\"requested_at\":"@ + text::int_text(
            p.requested_at as int,
        ) + "}"@,
{
}

/// Two packages that differ in one thing that is shown have different lines.
pub proof fn law_queue_lines_differ(a: PackageRowView, b: PackageRowView)
    requires
        queue_line(a) == queue_line(b),
    ensures
        (PackageRowView { id: b.id, ..a }) == b ==> a == b,
        (PackageRowView { package_name: b.package_name, ..a }) == b ==> a == b,
        (PackageRowView { version: b.version, ..a }) == b ==> a == b,
        (PackageRowView { worker_id: b.worker_id, ..a }) == b ==> a == b,
        (PackageRowView { status: b.status, ..a }) == b ==> a == b,
        (PackageRowView { requested_at: b.requested_at, ..a }) == b ==> a == b,
{
    let a0 = "{\"id\":"@;
    let a1 = a0 + text::int_text(a.id as int);
    let a2 = a1 + ",\"package\":\""@;
    let a3 = a2 + a.package_name;
    let a4 = a3 + "\",\"version\":\""@;
    let a5 = a4 + a.version;
    let a6 = a5 + "\",\"worker\":\""@;
    let a7 = a6 + a.worker_id;
    let a8 = a7 + "\",\"status\":\""@;
    let a9 = a8 + a.status;
    let a10 = a9 + "\",\"requested_at\":"@;
    let a11 = a10 + text::int_text(a.requested_at as int);
    let a12 = a11 + "}"@;
    let b0 = "{\"id\":"@;
    let b1 = b0 + text::int_text(b.id as int);
    let b2 = b1 + ",\"package\":\""@;
    let b3 = b2 + b.package_name;
    let b4 = b3 + "\",\"version\":\""@;
    let b5 = b4 + b.version;
    let b6 = b5 + "\",\"worker\":\""@;
    let b7 = b6 + b.worker_id;
    let b8 = b7 + "\",\"status\":\""@;
    let b9 = b8 + b.status;
    let b10 = b9 + "\",\"requested_at\":"@;
    let b11 = b10 + text::int_text(b.requested_at as int);
    let b12 = b11 + "}"@;
    assert(queue_line(a) == a12 && queue_line(b) == b12);
    assert((PackageRowView { id: b.id, ..a }) == b ==> a == b) by {
        if (PackageRowView { id: b.id, ..a }) == b {
            text::lemma_same_front(a11, b11, "}"@);
            text::lemma_same_front(a10, b10, text::int_text(a.requested_at as int));
            text::lemma_same_front(a9, b9, "\",\"requested_at\":"@);
            text::lemma_same_front(a8, b8, a.status);
            text::lemma_same_front(a7, b7, "\",\"status\":\""@);
            text::lemma_same_front(a6, b6, a.worker_id);
            text::lemma_same_front(a5, b5, "\",\"worker\":\""@);
            text::lemma_same_front(a4, b4, a.version);
            text::lemma_same_front(a3, b3, "\",\"version\":\""@);
            text::lemma_same_front(a2, b2, a.package_name);
            text::lemma_same_front(a1, b1, ",\"package\":\""@);
            text::lemma_same_rest(a0, text::int_text(a.id as int), text::int_text(b.id as int));
            text::law_numbers_differ(a.id as int, b.id as int);
        }
    }
    assert((PackageRowView { package_name: b.package_name, ..a }) == b ==> a == b) by {
        if (PackageRowView { package_name: b.package_name, ..a }) == b {
            text::lemma_same_front(a11, b11, "}"@);
            text::lemma_same_front(a10, b10, text::int_text(a.requested_at as int));
            text::lemma_same_front(a9, b9, "\",\"requested_at\":"@);
            text::lemma_same_front(a8, b8, a.status);
            text::lemma_same_front(a7, b7, "\",\"status\":\""@);
            text::lemma_same_front(a6, b6, a.worker_id);
            text::lemma_same_front(a5, b5, "\",\"worker\":\""@);
            text::lemma_same_front(a4, b4, a.version);
            text::lemma_same_front(a3, b3, "\",\"version\":\""@);
            text::lemma_same_rest(a2, a.package_name, b.package_name);
        }
    }
    assert((PackageRowView { version: b.version, ..a }) == b ==> a == b) by {
        if (PackageRowView { version: b.version, ..a }) == b {
            text::lemma_same_front(a11, b11, "}"@);
            text::lemma_same_front(a10, b10, text::int_text(a.requested_at as int));
            text::lemma_same_front(a9, b9, "\",\"requested_at\":"@);
            text::lemma_same_front(a8, b8, a.status);
            text::lemma_same_front(a7, b7, "\",\"status\":\""@);
            text::lemma_same_front(a6, b6, a.worker_id);
            text::lemma_same_front(a5, b5, "\",\"worker\":\""@);
            text::lemma_same_rest(a4, a.version, b.version);
        }
    }
    assert((PackageRowView { worker_id: b.worker_id, ..a }) == b ==> a == b) by {
        if (PackageRowView { worker_id: b.worker_id, ..a }) == b {
            text::lemma_same_front(a11, b11, "}"@);
            text::lemma_same_front(a10, b10, text::int_text(a.requested_at as int));
            text::lemma_same_front(a9, b9, "\",\"requested_at\":"@);
            text::lemma_same_front(a8, b8, a.status);
            text::lemma_same_front(a7, b7, "\",\"status\":\""@);
            text::lemma_same_rest(a6, a.worker_id, b.worker_id);
        }
    }
    assert((PackageRowView { status: b.status, ..a }) == b ==> a == b) by {
        if (PackageRowView { status: b.status, ..a }) == b {
            text::lemma_same_front(a11, b11, "}"@);
            text::lemma_same_front(a10, b10, text::int_text(a.requested_at as int));
            text::lemma_same_front(a9, b9, "\",\"requested_at\":"@);
            text::lemma_same_rest(a8, a.status, b.status);
        }
    }
    assert((PackageRowView { requested_at: b.requested_at, ..a }) == b ==> a == b) by {
        if (PackageRowView { requested_at: b.requested_at, ..a }) == b {
            text::lemma_same_front(a11, b11, "}"@);
            text::lemma_same_rest(a10, text::int_text(a.requested_at as int), text::int_text(b.requested_at as int));
            text::law_numbers_differ(a.requested_at as int, b.requested_at as int);
        }
    }
}

/// Each line of the queue is that of a package that there is, and up to a hundred packages are all
/// shown.
pub proof fn law_packages_shown(rows: Seq<PackageRowView>, a: int, k: int)
    requires
        0 <= k < rows.len(),
    ensures
        queue_lines(rows).len() == if rows.len() < 100 {
            rows.len()
        } else {
            100
        },
        0 <= a < queue_lines(rows).len() ==> exists|i: int|
            0 <= i < rows.len() && queue_lines(rows)[a] == queue_line(#[trigger] rows[i]),
        rows.len() <= 100 ==> queue_lines(rows).contains(queue_line(rows[k])),
{
    let keys = request_times(rows);
    order::law_orders(Seq::empty(), keys);
    order::law_ordering(rows.len(), keys.len(), order::by_number_down(keys));
    let order = order::ordering(rows.len(), order::by_number_down(keys));
    if 0 <= a < queue_lines(rows).len() {
        assert(0 <= order[a] < rows.len());
        assert(queue_lines(rows)[a] == queue_line(rows[order[a]]));
    }
    if rows.len() <= 100 {
        assert(order.contains(k));
        let m = choose|m: int| 0 <= m < order.len() && order[m] == k;
        assert(queue_lines(rows)[m] == queue_line(rows[k]));
    }
}

/// Where a reply is not of the kind that was asked for, nothing is done and the same is awaited; once all
/// is done, nothing changes any more.
pub proof fn law_other_replies_change_nothing(run: QueueRunView, reply: ReplyView)
    ensures
        run.stage is Listing && !(reply is Packages) ==> queue_step(run, reply) == (run, StepView::stop()),
        run.stage is Fetching && !(reply is Status) ==> queue_step(run, reply) == (run, StepView::stop()),
        run.stage is Checking && !(reply is Found) ==> queue_step(run, reply) == (run, StepView::stop()),
        run.stage is Timing && !(reply is Time) ==> queue_step(run, reply) == (run, StepView::stop()),
        run.stage is Done ==> queue_step(run, reply) == (run, StepView::stop()),
{
}

/// Work on the queue begins with nothing in hand, and with the question for the queue.
pub proof fn law_queue_begins()
    ensures
        queue_start().rows.len() == 0,
        queue_start().at == 0,
        queue_start().source == 0,
        queue_step(queue_start(), ReplyView::Begin).0 == (QueueRunView {
            stage: QueueStage::Listing,
            ..queue_start()
        }),
        queue_step(queue_start(), ReplyView::Begin).1 == StepView::stop().then_ask(
            QueryView::Packages,
        ),
{
}

} // verus!
