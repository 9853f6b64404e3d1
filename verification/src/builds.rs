//! How a worker takes compile jobs from the share and builds them.

use vstd::prelude::*;

use crate::jobs;
use crate::jobs::job_number;
use crate::paths;
use crate::paths::parent_dir;
use crate::payload;
use crate::payload::report_payload;
use crate::text;
use crate::text::starts_with;
use crate::work;
use crate::work::{Cmd, Effect, EffectView, Query, QueryView, Reply, ReplyView, Step, StepView};
use crate::worker::NFS_JOBS_PATH;

verus! {

/// For how many seconds a worker rests between two looks at the jobs.
pub const JOB_POLL_S: u64 = 3;

/// What the work on jobs waits for.
#[derive(Clone, Copy, Debug, PartialEq, Eq)]
pub enum BuildStage {
    Start,
    /// The worker's name for itself was asked for.
    Naming,
    /// The jobs were asked for.
    Listing,
    /// A job is being taken.
    Taking,
    /// It is being built.
    Building,
    /// It is being built in another way, because the first could not be started.
    Unpacking,
    /// The orchestrator is being told what became of it.
    Reporting,
}

/// The work on jobs: the worker's name for itself, the names that were found, and which of them is
/// worked on.
#[derive(Debug, PartialEq, Eq)]
pub struct BuildRun {
    pub id: String,
    pub names: Vec<String>,
    pub at: usize,
    pub stage: BuildStage,
}

pub struct BuildRunView {
    pub id: Seq<char>,
    pub names: Seq<Seq<char>>,
    pub at: int,
    pub stage: BuildStage,
}

impl View for BuildRun {
    type V = BuildRunView;

    open spec fn view(&self) -> BuildRunView {
        BuildRunView {
            id: self.id@,
            names: self.names.deep_view(),
            at: self.at as int,
            stage: self.stage,
        }
    }
}

impl BuildRunView {
    /// Whether a stage that works on a job has one.
    pub open spec fn wf(self) -> bool {
        &&& 0 <= self.at
        &&& self.stage is Taking || self.stage is Building || self.stage is Unpacking || self.stage
            is Reporting ==> self.at < self.names.len()
    }

    pub open spec fn job(self) -> Seq<char> {
        self.names[self.at]
    }
}

/// The run before anything of it is done.
pub open spec fn build_start() -> BuildRunView {
    BuildRunView { id: Seq::empty(), names: Seq::empty(), at: 0, stage: BuildStage::Start }
}

/// The first from `at` on whose name does not begin with a dot.
pub open spec fn next_visible(names: Seq<Seq<char>>, at: int) -> int
    decreases names.len() - at,
{
    if at < names.len() && text::begins(names[at], "."@) {
        next_visible(names, at + 1)
    } else {
        at
    }
}

/// Where a job lies before anyone has taken it.
pub open spec fn offered_path(name: Seq<char>) -> Seq<char> {
    NFS_JOBS_PATH@ + "/"@ + name
}

/// Where a job lies once the worker `id` has taken it.
pub open spec fn taken_path(name: Seq<char>, id: Seq<char>) -> Seq<char> {
    NFS_JOBS_PATH@ + "/"@ + name + "."@ + id
}

/// The command that builds a job that was taken.
pub open spec fn build_command(taken: Seq<char>) -> Seq<Seq<char>> {
    work::command("icecc"@).push("make"@).push("-C"@).push(paths::folder_of(taken))
}

/// The command that builds it where the first cannot be started.
pub open spec fn unpack_command(taken: Seq<char>) -> Seq<Seq<char>> {
    work::command("sh"@).push("-c"@).push("cd /tmp && tar xf '"@ + taken + "' && make"@)
}

/// Goes on with the next job from `run.at` on, or rests and looks again, behind what `step` already
/// does.
pub open spec fn take_next(run: BuildRunView, step: StepView) -> (BuildRunView, StepView) {
    let k = next_visible(run.names, run.at);
    if k < run.names.len() {
        (
            BuildRunView { at: k, stage: BuildStage::Taking, ..run },
            step.report(
                "[smech-farm-worker] picked up job: "@ + run.names[k] + "\n"@,
            ).then_ask(
                QueryView::Rename(offered_path(run.names[k]), taken_path(run.names[k], run.id)),
            ),
        )
    } else {
        (
            BuildRunView { at: k, stage: BuildStage::Listing, ..run },
            step.with(EffectView::Sleep(JOB_POLL_S)).then_ask(QueryView::List(NFS_JOBS_PATH@)),
        )
    }
}

/// The status that a job ends with.
pub open spec fn verdict(ok: bool) -> Seq<char> {
    if ok {
        "done"@
    } else {
        "failed"@
    }
}

/// What the orchestrator is told of a job that the worker `id` built.
pub open spec fn report_query(
    addr: Seq<char>,
    job: Seq<char>,
    id: Seq<char>,
    ok: bool,
) -> QueryView {
    QueryView::Post(
        addr,
        "/api/jobs/report"@,
        payload::job_report(jobs::number_in(job), verdict(ok), id),
    )
}

/// Ends the work on a job: the orchestrator is told what became of it.
pub open spec fn finish_job(addr: Seq<char>, run: BuildRunView, ok: bool) -> (
    BuildRunView,
    StepView,
) {
    (
        BuildRunView { stage: BuildStage::Reporting, ..run },
        StepView::stop().report(
            "[smech-farm-worker] job "@ + run.job() + " "@ + verdict(ok) + "\n"@,
        ).then_ask(report_query(addr, run.job(), run.id, ok)),
    )
}

/// How the work on jobs goes on: there is no end to it.
pub open spec fn build_step(addr: Seq<char>, run: BuildRunView, reply: ReplyView) -> (
    BuildRunView,
    StepView,
) {
    match (run.stage, reply) {
        (BuildStage::Start, _) => (
            BuildRunView { stage: BuildStage::Naming, ..run },
            StepView::stop().report(
                "[smech-farm-worker] polling for compile jobs in "@ + NFS_JOBS_PATH@ + "\n"@,
            ).then_ask(QueryView::WorkerId),
        ),
        (BuildStage::Naming, ReplyView::Text(Some(id))) => (
            BuildRunView { id, stage: BuildStage::Listing, ..run },
            StepView::stop().then_ask(QueryView::List(NFS_JOBS_PATH@)),
        ),
        (BuildStage::Listing, ReplyView::Names(found)) => match found {
            Some(names) => take_next(BuildRunView { names, at: 0, ..run }, StepView::stop()),
            None => (
                run,
                StepView::stop().with(EffectView::Sleep(JOB_POLL_S)).then_ask(
                    QueryView::List(NFS_JOBS_PATH@),
                ),
            ),
        },
        (BuildStage::Taking, ReplyView::Renamed(ok)) => if ok {
            (
                BuildRunView { stage: BuildStage::Building, ..run },
                StepView::stop().then_ask(
                    QueryView::Run(build_command(taken_path(run.job(), run.id))),
                ),
            )
        } else {
            take_next(BuildRunView { at: run.at + 1, ..run }, StepView::stop())
        },
        (BuildStage::Building, ReplyView::Status(s)) => match s {
            Some(ok) => finish_job(addr, run, ok),
            None => (
                BuildRunView { stage: BuildStage::Unpacking, ..run },
                StepView::stop().then_ask(
                    QueryView::Run(unpack_command(taken_path(run.job(), run.id))),
                ),
            ),
        },
        (BuildStage::Unpacking, ReplyView::Status(s)) => finish_job(addr, run, s == Some(true)),
        (BuildStage::Reporting, ReplyView::Http(h)) => take_next(
            BuildRunView { at: run.at + 1, ..run },
            match h {
                Ok(_) => StepView::stop(),
                Err(e) => StepView::stop().report(
                    "[smech-farm-worker] report on job "@ + run.job() + " failed: "@ + e + "\n"@,
                ),
            },
        ),
        _ => (run, StepView::stop()),
    }
}

/// The work on jobs before anything of it is done.
pub fn start_builds() -> (r: BuildRun)
    ensures
        r@ == build_start(),
        r@.wf(),
{
    let r = BuildRun {
        id: String::new(),
        names: Vec::new(),
        at: 0,
        stage: BuildStage::Start,
    };
    assert(r@.id =~= Seq::<char>::empty());
    assert(r@.names =~= Seq::<Seq<char>>::empty());
    r
}

fn pick(names: &Vec<String>, at: usize) -> (r: usize)
    requires
        at <= names@.len(),
    ensures
        at <= r <= names@.len(),
        r == next_visible(names.deep_view(), at as int),
{
    let ghost all = names.deep_view();
    let mut k: usize = at;
    while k < names.len() && starts_with(names[k].as_str(), ".")
        invariant
            all == names.deep_view(),
            at <= k <= names@.len(),
            next_visible(all, at as int) == next_visible(all, k as int),
        decreases names@.len() - k,
    {
        k += 1;
    }
    k
}

fn go_on(run: BuildRun, step: Step) -> (r: (BuildRun, Step))
    requires
        run.at <= run.names@.len(),
    ensures
        (r.0@, r.1@) == take_next(run@, step@),
        r.0@.wf(),
{
    let k = pick(&run.names, run.at);
    if k < run.names.len() {
        let name = run.names[k].as_str();
        assert(name@ == run@.names[k as int]);
        let from = NFS_JOBS_PATH.to_string().concat("/").concat(name);
        let to = NFS_JOBS_PATH.to_string().concat("/").concat(name).concat(".").concat(
            run.id.as_str(),
        );
        let line = "[smech-farm-worker] picked up job: ".to_string().concat(name).concat("\n");
        let step = step.report(line).then_ask(Query::Rename(from, to));
        (BuildRun { id: run.id, names: run.names, at: k, stage: BuildStage::Taking }, step)
    } else {
        let step = step.with(Effect::Sleep(JOB_POLL_S)).then_ask(
            Query::List(NFS_JOBS_PATH.to_string()),
        );
        (BuildRun { id: run.id, names: run.names, at: k, stage: BuildStage::Listing }, step)
    }
}

fn end_job(addr: &str, run: BuildRun, ok: bool) -> (r: (BuildRun, Step))
    requires
        run.at < run.names@.len(),
    ensures
        (r.0@, r.1@) == finish_job(addr@, run@, ok),
        r.0@.wf(),
{
    let end = if ok {
        "done"
    } else {
        "failed"
    };
    let job = run.names[run.at].as_str();
    let line = "[smech-farm-worker] job ".to_string().concat(job).concat(" ").concat(end).concat(
        "\n",
    );
    let body = report_payload(job_number(job), end, run.id.as_str());
    let step = Step::stop().report(line).then_ask(
        Query::Post(addr.to_string(), "/api/jobs/report".to_string(), body),
    );
    (
        BuildRun { id: run.id, names: run.names, at: run.at, stage: BuildStage::Reporting },
        step,
    )
}

/// Leaves the job that is worked on behind.
fn leave(run: BuildRun, step: Step) -> (r: (BuildRun, Step))
    requires
        run.at < run.names@.len(),
    ensures
        (r.0@, r.1@) == take_next((BuildRunView { at: run@.at + 1, ..run@ }), step@),
        r.0@.wf(),
{
    let n = run.names.len();
    assert(run.at < n);
    let at = run.at + 1;
    go_on(BuildRun { id: run.id, names: run.names, at, stage: run.stage }, step)
}

/// Where the job that is worked on lies.
fn taken(run: &BuildRun) -> (r: String)
    requires
        run.at < run.names@.len(),
    ensures
        r@ == taken_path(run@.job(), run@.id),
{
    NFS_JOBS_PATH.to_string().concat("/").concat(run.names[run.at].as_str()).concat(".").concat(
        run.id.as_str(),
    )
}

/// How the work on jobs goes on: each job whose name does not begin with a dot is taken, unless
/// another worker was faster, and built, and the orchestrator is told what became of it.
pub fn cmd_run_jobs(addr: &str, run: BuildRun, reply: Reply) -> (r: (BuildRun, Step))
    requires
        run@.wf(),
    ensures
        (r.0@, r.1@) == build_step(addr@, run@, reply@),
        r.0@.wf(),
{
    assert(run@.names.len() == run.names@.len());
    match (run.stage, reply) {
        (BuildStage::Start, _) => (
            BuildRun { id: run.id, names: run.names, at: run.at, stage: BuildStage::Naming },
            Step::stop().report(
                "[smech-farm-worker] polling for compile jobs in ".to_string().concat(
                    NFS_JOBS_PATH,
                ).concat("\n"),
            ).then_ask(Query::WorkerId),
        ),
        (BuildStage::Naming, Reply::Text(Some(id))) => (
            BuildRun { id, names: run.names, at: run.at, stage: BuildStage::Listing },
            Step::stop().then_ask(Query::List(NFS_JOBS_PATH.to_string())),
        ),
        (BuildStage::Listing, Reply::Names(found)) => match found {
            Some(names) => go_on(
                BuildRun { id: run.id, names, at: 0, stage: run.stage },
                Step::stop(),
            ),
            None => (
                run,
                Step::stop().with(Effect::Sleep(JOB_POLL_S)).then_ask(
                    Query::List(NFS_JOBS_PATH.to_string()),
                ),
            ),
        },
        (BuildStage::Taking, Reply::Renamed(ok)) => {
            if ok {
                let folder = parent_dir(taken(&run).as_str());
                let cmd = Cmd::new("icecc").arg("make").arg("-C").arg(folder.as_str());
                (
                    BuildRun {
                        id: run.id,
                        names: run.names,
                        at: run.at,
                        stage: BuildStage::Building,
                    },
                    Step::stop().then_ask(Query::Run(cmd)),
                )
            } else {
                leave(run, Step::stop())
            }
        },
        (BuildStage::Building, Reply::Status(s)) => match s {
            Some(ok) => end_job(addr, run, ok),
            None => {
                let script = "cd /tmp && tar xf '".to_string().concat(
                    taken(&run).as_str(),
                ).concat("' && make");
                let cmd = Cmd::new("sh").arg("-c").arg(script.as_str());
                (
                    BuildRun {
                        id: run.id,
                        names: run.names,
                        at: run.at,
                        stage: BuildStage::Unpacking,
                    },
                    Step::stop().then_ask(Query::Run(cmd)),
                )
            },
        },
        (BuildStage::Unpacking, Reply::Status(s)) => {
            let ok = match s {
                Some(b) => b,
                None => false,
            };
            end_job(addr, run, ok)
        },
        (BuildStage::Reporting, Reply::Http(h)) => {
            let step = match h {
                Ok(_) => Step::stop(),
                Err(e) => Step::stop().report(
                    "[smech-farm-worker] report on job ".to_string().concat(
                        run.names[run.at].as_str(),
                    ).concat(" failed: ").concat(e.as_str()).concat("\n"),
                ),
            };
            leave(run, step)
        },
        _ => (run, Step::stop()),
    }
}

proof fn lemma_next_visible(names: Seq<Seq<char>>, at: int)
    requires
        0 <= at <= names.len(),
    ensures
        at <= next_visible(names, at) <= names.len(),
        next_visible(names, at) < names.len() ==> !text::begins(
            names[next_visible(names, at)],
            "."@,
        ),
        forall|i: int| at <= i < next_visible(names, at) ==> text::begins(#[trigger] names[i], "."@),
    decreases names.len() - at,
{
    if at < names.len() && text::begins(names[at], "."@) {
        lemma_next_visible(names, at + 1);
    }
}

/// What is taken next does not begin with a dot, and what is passed over does; a worker rests only
/// when nothing is left that it could take.
pub proof fn law_hidden_are_passed_over(run: BuildRunView, step: StepView)
    requires
        0 <= run.at <= run.names.len(),
    ensures
        ({
            let next = take_next(run, step);
            &&& next.0.stage is Taking ==> run.at <= next.0.at < run.names.len() && !text::begins(
                run.names[next.0.at],
                "."@,
            )
            &&& next.0.stage is Taking || next.0.stage is Listing
            &&& forall|i: int|
                run.at <= i < next.0.at && i < run.names.len() ==> text::begins(
                    #[trigger] run.names[i],
                    "."@,
                )
            &&& next.0.stage is Listing ==> next.0.at == run.names.len()
        }),
{
    lemma_next_visible(run.names, run.at);
}

/// Only the worker whose renaming succeeded builds a job.
pub proof fn law_taking_decides(addr: Seq<char>, run: BuildRunView, ok: bool)
    requires
        run.wf(),
        run.stage is Taking,
    ensures
        ({
            let next = build_step(addr, run, ReplyView::Renamed(ok));
            &&& ok <==> next.0.stage is Building
            &&& ok ==> next.1.ask == Some(
                QueryView::Run(build_command(taken_path(run.job(), run.id))),
            )
            &&& !ok ==> next.0.at > run.at && !(next.1.ask->0 is Run)
        }),
{
    if !ok {
        lemma_next_visible(run.names, run.at + 1);
    }
}

/// How a build ended, where the reply ends one: with success or not.
pub open spec fn ended(run: BuildRunView, reply: ReplyView) -> Option<bool> {
    match (run.stage, reply) {
        (BuildStage::Building, ReplyView::Status(s)) => s,
        (BuildStage::Unpacking, ReplyView::Status(s)) => Some(s == Some(true)),
        _ => None,
    }
}

/// A build that ended, well or not, is reported at once, with its own outcome; and nothing else is
/// ever reported.
pub proof fn law_ended_builds_are_reported(addr: Seq<char>, run: BuildRunView, reply: ReplyView)
    ensures
        ({
            let next = build_step(addr, run, reply);
            &&& ended(run, reply) matches Some(ok) ==> next.0.stage is Reporting && next.1.ask
                == Some(report_query(addr, run.job(), run.id, ok))
            &&& ended(run, reply) is None ==> !(next.1.ask matches Some(QueryView::Post(_, _, _)))
        }),
{
}

/// A report, whether it got through or not, is followed by the next job.
pub proof fn law_builds_go_on(
    addr: Seq<char>,
    run: BuildRunView,
    h: Result<Seq<char>, Seq<char>>,
)
    requires
        run.wf(),
        run.stage is Reporting,
    ensures
        ({
            let next = build_step(addr, run, ReplyView::Http(h));
            &&& next.0.at > run.at
            &&& next.0.stage is Taking || next.0.stage is Listing
        }),
{
    lemma_next_visible(run.names, run.at + 1);
}

/// The run after `replies`.
pub open spec fn run_after(
    addr: Seq<char>,
    run: BuildRunView,
    replies: Seq<ReplyView>,
) -> BuildRunView
    decreases replies.len(),
{
    if replies.len() == 0 {
        run
    } else {
        build_step(addr, run_after(addr, run, replies.drop_last()), replies.last()).0
    }
}

/// The reports that are sent on the way through `replies`, in order.
pub open spec fn reports(
    addr: Seq<char>,
    run: BuildRunView,
    replies: Seq<ReplyView>,
) -> Seq<QueryView>
    decreases replies.len(),
{
    if replies.len() == 0 {
        Seq::empty()
    } else {
        let before = run_after(addr, run, replies.drop_last());
        let sent = reports(addr, run, replies.drop_last());
        match build_step(addr, before, replies.last()).1.ask {
            Some(QueryView::Post(a, p, b)) => sent.push(QueryView::Post(a, p, b)),
            _ => sent,
        }
    }
}

/// The reports that the builds call for that end on the way through `replies`: one for each, in
/// order.
pub open spec fn reports_due(
    addr: Seq<char>,
    run: BuildRunView,
    replies: Seq<ReplyView>,
) -> Seq<QueryView>
    decreases replies.len(),
{
    if replies.len() == 0 {
        Seq::empty()
    } else {
        let before = run_after(addr, run, replies.drop_last());
        let due = reports_due(addr, run, replies.drop_last());
        match ended(before, replies.last()) {
            Some(ok) => due.push(report_query(addr, before.job(), before.id, ok)),
            None => due,
        }
    }
}

/// However long a worker works, every build that ended, with success or failure, was followed by
/// exactly one report with that outcome, and nothing else was reported.
pub proof fn law_every_build_is_reported_once(
    addr: Seq<char>,
    run: BuildRunView,
    replies: Seq<ReplyView>,
)
    ensures
        reports(addr, run, replies) == reports_due(addr, run, replies),
    decreases replies.len(),
{
    if replies.len() > 0 {
        law_every_build_is_reported_once(addr, run, replies.drop_last());
        law_ended_builds_are_reported(
            addr,
            run_after(addr, run, replies.drop_last()),
            replies.last(),
        );
    }
}

/// What a worker reports of a job that the orchestrator handed out carries that job's number, and a
/// status that a job can end with.
pub proof fn law_report_names_the_job(
    addr: Seq<char>,
    job: i64,
    filename: Seq<char>,
    id: Seq<char>,
    ok: bool,
)
    requires
        0 <= job,
    ensures
        report_query(addr, text::int_text(job as int) + "-"@ + filename, id, ok) == QueryView::Post(
            addr,
            "/api/jobs/report"@,
            payload::job_report(Some(job), verdict(ok), id),
        ),
        jobs::is_final(verdict(ok)),
{
    jobs::law_file_says_its_job(job, filename);
}

/// A job is built in the folder that it was taken in, where neither its name nor the worker's own
/// holds a slash.
pub proof fn law_built_where_it_lies(name: Seq<char>, id: Seq<char>)
    requires
        text::lacks(name, '/'),
        text::lacks(id, '/'),
        name.len() > 0,
        !text::begins(name, "."@),
    ensures
        build_command(taken_path(name, id)) == work::command("icecc"@).push("make"@).push(
            "-C"@,
        ).push(NFS_JOBS_PATH@),
{
    reveal_strlit("/srv/smech-farm/packages/jobs");
    reveal_strlit("/");
    reveal_strlit(".");
    reveal_strlit("..");
    let whole = name + "."@ + id;
    assert(taken_path(name, id) =~= NFS_JOBS_PATH@ + "/"@ + whole);
    assert(whole[0] == name[0]);
    assert(name[0] != '.') by {
        if name[0] == '.' {
            assert(name.take(1) =~= "."@);
        }
    }
    assert forall|i: int| 0 <= i < whole.len() implies #[trigger] whole[i] != '/' by {
        if i < name.len() {
            assert(whole[i] == name[i]);
        } else if i > name.len() {
            assert(whole[i] == id[i - name.len() - 1]);
        }
    }
    paths::law_paths(NFS_JOBS_PATH@, whole);
}

/// Where a job lies while nobody has taken it, and where it lies once a worker has: beside it, under
/// a name that ends in the worker's.
pub proof fn law_where_jobs_lie(name: Seq<char>, id: Seq<char>)
    ensures
        offered_path(name) == "/srv/smech-farm/packages/jobs"@ + "/"@ + name,
        taken_path(name, id) == offered_path(name) + "."@ + id,
{
}

/// A job is built where it lies; where that cannot be started, it is unpacked and built elsewhere.
pub proof fn law_how_jobs_are_built(taken: Seq<char>)
    ensures
        build_command(taken) == seq!["icecc"@, "make"@, "-C"@, paths::folder_of(taken)],
        unpack_command(taken) == seq![
            "sh"@,
            "-c"@,
            "cd /tmp && tar xf '"@ + taken + "' && make"@,
        ],
{
}

/// A worker says where it looks for jobs, asks for its name, and looks.
pub proof fn law_looking_for_jobs(addr: Seq<char>, id: Seq<char>)
    ensures
        ({
            let a = build_step(addr, build_start(), ReplyView::Begin);
            let b = build_step(addr, a.0, ReplyView::Text(Some(id)));
            let c = build_step(addr, b.0, ReplyView::Names(None));
            let d = build_step(addr, b.0, ReplyView::Names(Some(Seq::empty())));
            &&& a.1 == StepView::stop().report(
                "[smech-farm-worker] polling for compile jobs in "@
                    + "/srv/smech-farm/packages/jobs"@ + "\n"@,
            ).then_ask(QueryView::WorkerId)
            &&& b.1 == StepView::stop().then_ask(
                QueryView::List("/srv/smech-farm/packages/jobs"@),
            )
            &&& b.0.id == id
            &&& c.1 == StepView::stop().with(EffectView::Sleep(3)).then_ask(
                QueryView::List("/srv/smech-farm/packages/jobs"@),
            )
            &&& d.1 == c.1
            &&& c.0.id == id && d.0.id == id
        }),
{
}

/// The first job that is not hidden is taken, built, and reported as done or failed as the build
/// ended; the worker says so at each step.
pub proof fn law_building_a_job(
    addr: Seq<char>,
    run: BuildRunView,
    name: Seq<char>,
    others: Seq<Seq<char>>,
    ok: bool,
    again: Option<bool>,
)
    requires
        run.stage is Listing,
        !text::begins(name, "."@),
    ensures
        ({
            let names = Seq::empty().push(name) + others;
            let a = build_step(addr, run, ReplyView::Names(Some(names)));
            let b = build_step(addr, a.0, ReplyView::Renamed(true));
            let c = build_step(addr, b.0, ReplyView::Status(Some(ok)));
            let d = build_step(addr, b.0, ReplyView::Status(None));
            let e = build_step(addr, d.0, ReplyView::Status(again));
            let taken = taken_path(name, run.id);
            let word = if ok {
                "done"@
            } else {
                "failed"@
            };
            let word_again = if again == Some(true) {
                "done"@
            } else {
                "failed"@
            };
            &&& a.1 == StepView::stop().report(
                "[smech-farm-worker] picked up job: "@ + name + "\n"@,
            ).then_ask(QueryView::Rename(offered_path(name), taken))
            &&& b.1 == StepView::stop().then_ask(QueryView::Run(build_command(taken)))
            &&& c.1 == StepView::stop().report(
                "[smech-farm-worker] job "@ + name + " "@ + word + "\n"@,
            ).then_ask(
                QueryView::Post(
                    addr,
                    "/api/jobs/report"@,
                    payload::job_report(jobs::number_in(name), word, run.id),
                ),
            )
            &&& d.1 == StepView::stop().then_ask(QueryView::Run(unpack_command(taken)))
            &&& e.1 == StepView::stop().report(
                "[smech-farm-worker] job "@ + name + " "@ + word_again + "\n"@,
            ).then_ask(
                QueryView::Post(
                    addr,
                    "/api/jobs/report"@,
                    payload::job_report(jobs::number_in(name), word_again, run.id),
                ),
            )
        }),
{
    let names = Seq::empty().push(name) + others;
    assert(names[0] == name);
    assert(next_visible(names, 0) == 0);
}

/// A report that did not get through is told, with the reason, and does not stop the worker.
pub proof fn law_report_that_failed(addr: Seq<char>, run: BuildRunView, why: Seq<char>)
    requires
        run.wf(),
        run.stage is Reporting,
    ensures
        ({
            let a = build_step(addr, run, ReplyView::Http(Err(why)));
            let b = build_step(addr, run, ReplyView::Http(Ok(why)));
            &&& a.0 == b.0
            &&& a.1.ask == b.1.ask
            &&& a.1.effects == seq![
                EffectView::Report(
                    "[smech-farm-worker] report on job "@ + run.names[run.at] + " failed: "@ + why
                        + "\n"@,
                ),
            ] + b.1.effects
        }),
{
    let a = build_step(addr, run, ReplyView::Http(Err(why)));
    let b = build_step(addr, run, ReplyView::Http(Ok(why)));
    assert(a.1.effects =~= seq![
        EffectView::Report(
            "[smech-farm-worker] report on job "@ + run.names[run.at] + " failed: "@ + why + "\n"@,
        ),
    ] + b.1.effects);
}

/// Where a reply is not of the kind that was asked for, nothing is done and the same is awaited; once all
/// is done, nothing changes any more.
pub proof fn law_other_replies_change_nothing(addr: Seq<char>, run: BuildRunView, reply: ReplyView)
    ensures
        run.stage is Naming && !(reply is Text && reply->Text_0 is Some) ==> build_step(addr, run, reply) == (run, StepView::stop()),
        run.stage is Listing && !(reply is Names) ==> build_step(addr, run, reply) == (run, StepView::stop()),
        run.stage is Taking && !(reply is Renamed) ==> build_step(addr, run, reply) == (run, StepView::stop()),
        run.stage is Building && !(reply is Status) ==> build_step(addr, run, reply) == (run, StepView::stop()),
        run.stage is Unpacking && !(reply is Status) ==> build_step(addr, run, reply) == (run, StepView::stop()),
        run.stage is Reporting && !(reply is Http) ==> build_step(addr, run, reply) == (run, StepView::stop()),
{
}

/// Work on jobs begins with nothing in hand.
pub proof fn law_builds_begin()
    ensures
        build_start().id.len() == 0,
        build_start().names.len() == 0,
        build_start().at == 0,
        build_start().stage is Start,
{
}

} // verus!
