//! The API: from a request to its answer.

use vstd::prelude::*;

use crate::api;
use crate::api::{
    api_status, api_wg_peers, api_wg_register_worker, api_wg_server_info, content_type, route, Route,
};
use crate::base64;
use crate::base64::base64_decodable;
use crate::config;
use crate::config::{wg_pubkey_path, Config, ConfigView};
use crate::jobs;
use crate::jobs::{api_job_report, api_job_submit, api_jobs, job_stored};
use crate::json_text;
use crate::packages;
use crate::packages::{api_queue, api_queue_add};
use crate::peers;
use crate::records;
use crate::records::{
    FarmView, JobOutcomeView, JobReport, JobReportView, JobRow, JobRowView, JobSubmit,
    JobSubmitView, NewJob, NewJobView, PackageRow, PackageRowView, PeerRowView, QueueRequest,
    QueueRequestView, WgRegisterReqView, WorkerHeartbeat, WorkerHeartbeatView, WorkerRow,
    WorkerRowView,
};
use crate::text;
use crate::webui;
use crate::webui::webui_html;
use crate::work;
use crate::work::{Effect, EffectView, Query, QueryView, Reply, ReplyView, Step, StepView};
use crate::workers;
use crate::workers::{api_worker_heartbeat, api_workers};

verus! {

/// The answer to a request.
#[derive(Debug, PartialEq, Eq)]
pub struct Response {
    pub status: i32,
    pub content_type: String,
    pub body: String,
}

pub struct ResponseView {
    pub status: i32,
    pub content_type: Seq<char>,
    pub body: Seq<char>,
}

impl View for Response {
    type V = ResponseView;

    open spec fn view(&self) -> ResponseView {
        ResponseView {
            status: self.status,
            content_type: self.content_type@,
            body: self.body@,
        }
    }
}

/// What the handling of a request waits for.
#[derive(Debug, PartialEq, Eq)]
pub enum HandleStage {
    Start,
    /// What the farm knows was asked for.
    Farm,
    Workers,
    Queue,
    Jobs,
    /// The file of the server's public key is being read.
    ServerInfo,
    Peers,
    /// The request for a package is being read.
    AddRead,
    /// The queue was asked for.
    AddRows(QueueRequest),
    /// The time was asked for.
    AddTime(QueueRequest, Vec<PackageRow>),
    /// The queue is being worked off.
    Processing,
    /// The workers are being told of packages, because the queue was worked off.
    ProcessPushing,
    /// The workers are being told of packages.
    Pushing,
    /// The submission is being read.
    JobRead,
    /// The time was asked for.
    JobTime(JobSubmit),
    /// The job is being stored.
    JobSave(NewJob),
    /// The report on a job is being read.
    ReportRead,
    /// The jobs were asked for.
    ReportRows(JobReport),
    /// The time was asked for.
    ReportTime(JobReport, Vec<JobRow>),
    /// The request for a sync is being read.
    SyncRead,
    Syncing,
    /// The heartbeat is being read.
    BeatRead,
    /// The workers were asked for.
    BeatRows(WorkerHeartbeat),
    /// The time was asked for.
    BeatTime(WorkerHeartbeat, Vec<WorkerRow>),
    /// The request to be let into the tunnel is being read.
    RegisterRead,
    Registering,
    /// The file of the server's public key is being read.
    RegisterKey(Result<String, String>),
    Done(Response),
}

pub enum HandleStageView {
    Start,
    Farm,
    Workers,
    Queue,
    Jobs,
    ServerInfo,
    Peers,
    AddRead,
    AddRows(QueueRequestView),
    AddTime(QueueRequestView, Seq<PackageRowView>),
    Processing,
    ProcessPushing,
    Pushing,
    JobRead,
    JobTime(JobSubmitView),
    JobSave(NewJobView),
    ReportRead,
    ReportRows(JobReportView),
    ReportTime(JobReportView, Seq<JobRowView>),
    SyncRead,
    Syncing,
    BeatRead,
    BeatRows(WorkerHeartbeatView),
    BeatTime(WorkerHeartbeatView, Seq<WorkerRowView>),
    RegisterRead,
    Registering,
    RegisterKey(Result<Seq<char>, Seq<char>>),
    Done(ResponseView),
}

impl View for HandleStage {
    type V = HandleStageView;

    open spec fn view(&self) -> HandleStageView {
        match self {
            HandleStage::Start => HandleStageView::Start,
            HandleStage::Farm => HandleStageView::Farm,
            HandleStage::Workers => HandleStageView::Workers,
            HandleStage::Queue => HandleStageView::Queue,
            HandleStage::Jobs => HandleStageView::Jobs,
            HandleStage::ServerInfo => HandleStageView::ServerInfo,
            HandleStage::Peers => HandleStageView::Peers,
            HandleStage::AddRead => HandleStageView::AddRead,
            HandleStage::AddRows(q) => HandleStageView::AddRows(q@),
            HandleStage::AddTime(q, rows) => HandleStageView::AddTime(q@, records::views(rows@)),
            HandleStage::Processing => HandleStageView::Processing,
            HandleStage::ProcessPushing => HandleStageView::ProcessPushing,
            HandleStage::Pushing => HandleStageView::Pushing,
            HandleStage::JobRead => HandleStageView::JobRead,
            HandleStage::JobTime(j) => HandleStageView::JobTime(j@),
            HandleStage::JobSave(j) => HandleStageView::JobSave(j@),
            HandleStage::ReportRead => HandleStageView::ReportRead,
            HandleStage::ReportRows(r) => HandleStageView::ReportRows(r@),
            HandleStage::ReportTime(r, rows) => HandleStageView::ReportTime(
                r@,
                records::views(rows@),
            ),
            HandleStage::SyncRead => HandleStageView::SyncRead,
            HandleStage::Syncing => HandleStageView::Syncing,
            HandleStage::BeatRead => HandleStageView::BeatRead,
            HandleStage::BeatRows(h) => HandleStageView::BeatRows(h@),
            HandleStage::BeatTime(h, rows) => HandleStageView::BeatTime(h@, records::views(rows@)),
            HandleStage::RegisterRead => HandleStageView::RegisterRead,
            HandleStage::Registering => HandleStageView::Registering,
            HandleStage::RegisterKey(r) => HandleStageView::RegisterKey(records::result_text(*r)),
            HandleStage::Done(r) => HandleStageView::Done(r@),
        }
    }
}

impl HandleStageView {
    /// Whether a submission that is kept can be decoded.
    pub open spec fn wf(self) -> bool {
        self matches HandleStageView::JobTime(j) ==> base64::decodable(j.content)
    }
}

/// Answers under `url` with a status and a body, behind what `step` already does.
pub open spec fn answer(url: Seq<char>, a: (i32, Seq<char>), step: StepView) -> (
    HandleStageView,
    StepView,
) {
    (
        HandleStageView::Done(
            ResponseView { status: a.0, content_type: api::type_of(url), body: a.1 },
        ),
        step,
    )
}

/// Asks `q` and waits in `stage`.
pub open spec fn wait(stage: HandleStageView, q: QueryView) -> (HandleStageView, StepView) {
    (stage, StepView::stop().then_ask(q))
}

/// The refusal of a body that could not be read.
pub open spec fn bad_request() -> (i32, Seq<char>) {
    (400, "{\"error\":\"bad request\"}"@)
}

/// The refusal of a request to be let into the tunnel that could not be read.
pub open spec fn bad_registration() -> (i32, Seq<char>) {
    (
        400,
        "{\"error\":\"bad request \u{2014} expected {\\\"name\\\":\\\"...\\\",\\\"public_key\\\":\\\"...\\\"}\"}"@,
    )
}

/// How the handling of a request begins.
pub open spec fn begin(cfg: ConfigView, r: Route, url: Seq<char>) -> (HandleStageView, StepView) {
    match r {
        Route::Status => wait(HandleStageView::Farm, QueryView::Farm),
        Route::Workers => wait(HandleStageView::Workers, QueryView::Workers),
        Route::Queue => wait(HandleStageView::Queue, QueryView::Packages),
        Route::Jobs => wait(HandleStageView::Jobs, QueryView::Jobs),
        Route::ServerInfo => if cfg.wireguard.enabled {
            wait(
                HandleStageView::ServerInfo,
                QueryView::ReadText(config::pubkey_path(cfg.wireguard.interface)),
            )
        } else {
            answer(url, api::tunnel_off(), StepView::stop())
        },
        Route::Peers => if cfg.wireguard.enabled {
            wait(HandleStageView::Peers, QueryView::Peers)
        } else {
            answer(url, api::tunnel_off(), StepView::stop())
        },
        Route::QueueAdd => wait(HandleStageView::AddRead, QueryView::QueueRequest),
        Route::QueueProcess => wait(HandleStageView::Processing, QueryView::ProcessQueue),
        Route::JobSubmit => wait(HandleStageView::JobRead, QueryView::JobSubmit),
        Route::JobReport => wait(HandleStageView::ReportRead, QueryView::JobReport),
        Route::PackagesPush => wait(HandleStageView::Pushing, QueryView::PushPackages),
        Route::GatewaySync => wait(HandleStageView::SyncRead, QueryView::SyncRequest),
        Route::Heartbeat => wait(HandleStageView::BeatRead, QueryView::Heartbeat),
        Route::Register => wait(HandleStageView::RegisterRead, QueryView::RegisterRequest),
        Route::Ui => answer(
            url,
            (200, webui::page(cfg.farm, cfg.wireguard.enabled)),
            StepView::stop(),
        ),
        Route::NotFound => answer(url, (404, "{\"error\":\"not found\"}"@), StepView::stop()),
    }
}

/// How the handling of a request goes on.
pub open spec fn handle_step(
    cfg: ConfigView,
    method: Seq<char>,
    url: Seq<char>,
    stage: HandleStageView,
    reply: ReplyView,
) -> (HandleStageView, StepView) {
    match (stage, reply) {
        (HandleStageView::Start, _) => begin(cfg, api::route_of(method, url), url),
        (HandleStageView::Farm, ReplyView::Farm(f)) => answer(
            url,
            (200, api::status_text(cfg.wireguard.enabled, f)),
            StepView::stop(),
        ),
        (HandleStageView::Workers, ReplyView::Workers(rows)) => answer(
            url,
            (200, json_text::array(workers::worker_lines(rows))),
            StepView::stop(),
        ),
        (HandleStageView::Queue, ReplyView::Packages(rows)) => answer(
            url,
            (200, json_text::array(packages::queue_lines(rows))),
            StepView::stop(),
        ),
        (HandleStageView::Jobs, ReplyView::Jobs(rows)) => answer(
            url,
            (200, json_text::array(jobs::job_lines(rows))),
            StepView::stop(),
        ),
        (HandleStageView::ServerInfo, ReplyView::Text(file)) => answer(
            url,
            api::server_info(cfg.wireguard, file),
            StepView::stop(),
        ),
        (HandleStageView::Peers, ReplyView::Peers(rows)) => answer(
            url,
            api::peers_answer(cfg.wireguard, rows),
            StepView::stop(),
        ),
        (HandleStageView::AddRead, ReplyView::QueueRequest(q)) => match q {
            None => answer(url, bad_request(), StepView::stop()),
            Some(req) => wait(HandleStageView::AddRows(req), QueryView::Packages),
        },
        (HandleStageView::AddRows(req), ReplyView::Packages(rows)) => wait(
            HandleStageView::AddTime(req, rows),
            QueryView::Clock,
        ),
        (HandleStageView::AddTime(req, rows), ReplyView::Time(t)) => {
            let a = packages::queue_add_answer(rows, Some(req), t);
            answer(
                url,
                (a.0, a.1),
                match a.2 {
                    Some(p) => StepView::stop().with(EffectView::AddPackage(p)),
                    None => StepView::stop(),
                },
            )
        },
        (HandleStageView::Processing, ReplyView::Finished) => wait(
            HandleStageView::ProcessPushing,
            QueryView::PushPackages,
        ),
        (HandleStageView::ProcessPushing, ReplyView::Finished) => answer(
            url,
            (200, "{\"ok\":true,\"msg\":\"queue processed\"}"@),
            StepView::stop(),
        ),
        (HandleStageView::Pushing, ReplyView::Finished) => answer(
            url,
            (200, "{\"ok\":true,\"msg\":\"push signal written\"}"@),
            StepView::stop(),
        ),
        (HandleStageView::JobRead, ReplyView::JobSubmit(j)) => match j {
            None => answer(url, bad_request(), StepView::stop()),
            Some(req) => if base64::decodable(req.content) {
                wait(HandleStageView::JobTime(req), QueryView::Clock)
            } else {
                (
                    HandleStageView::JobRead,
                    StepView::stop().with(EffectView::Abort("base64 content ends too early"@)),
                )
            },
        },
        (HandleStageView::JobTime(req), ReplyView::Time(t)) => wait(
            HandleStageView::JobSave(jobs::job_of(req, t)),
            QueryView::AddJob(jobs::job_of(req, t)),
        ),
        (HandleStageView::JobSave(job), ReplyView::Id(id)) => answer(
            url,
            (200, "{\"ok\":true,\"job_id\":"@ + text::int_text(id as int) + "}"@),
            jobs::handed_out(job, id),
        ),
        (HandleStageView::ReportRead, ReplyView::JobReport(r)) => match r {
            None => answer(url, bad_request(), StepView::stop()),
            Some(report) => wait(HandleStageView::ReportRows(report), QueryView::Jobs),
        },
        (HandleStageView::ReportRows(report), ReplyView::Jobs(rows)) => wait(
            HandleStageView::ReportTime(report, rows),
            QueryView::Clock,
        ),
        (HandleStageView::ReportTime(report, rows), ReplyView::Time(t)) => {
            let a = jobs::report_answer(rows, Some(report), t);
            answer(
                url,
                (a.0, a.1),
                match a.2 {
                    Some(o) => StepView::stop().with(EffectView::FinishJob(o)),
                    None => StepView::stop(),
                },
            )
        },
        (HandleStageView::SyncRead, ReplyView::Text(by)) => wait(
            HandleStageView::Syncing,
            QueryView::SyncGateway(
                match by {
                    Some(name) => name,
                    None => "api"@,
                },
            ),
        ),
        (HandleStageView::Syncing, ReplyView::Finished) => answer(
            url,
            (200, "{\"ok\":true,\"msg\":\"gateway sync complete\"}"@),
            StepView::stop(),
        ),
        (HandleStageView::BeatRead, ReplyView::Heartbeat(h)) => match h {
            None => answer(url, bad_request(), StepView::stop()),
            Some(hb) => wait(HandleStageView::BeatRows(hb), QueryView::Workers),
        },
        (HandleStageView::BeatRows(hb), ReplyView::Workers(rows)) => wait(
            HandleStageView::BeatTime(hb, rows),
            QueryView::Clock,
        ),
        (HandleStageView::BeatTime(hb, rows), ReplyView::Time(t)) => {
            let a = workers::heartbeat_answer(rows, Some(hb), t);
            answer(
                url,
                (a.0, a.1),
                match a.2 {
                    Some(c) => StepView::stop().with(EffectView::SaveWorker(c)),
                    None => StepView::stop(),
                },
            )
        },
        (HandleStageView::RegisterRead, ReplyView::RegisterRequest(q)) => match q {
            None => answer(url, bad_registration(), StepView::stop()),
            Some(req) => wait(
                HandleStageView::Registering,
                QueryView::Register(req.name, req.public_key),
            ),
        },
        (HandleStageView::Registering, ReplyView::Registered(given)) => match given {
            Ok(ip) => wait(
                HandleStageView::RegisterKey(Ok(ip)),
                QueryView::ReadText(config::pubkey_path(cfg.wireguard.interface)),
            ),
            Err(e) => answer(
                url,
                api::register_answer(cfg.wireguard, Err(e), None),
                StepView::stop(),
            ),
        },
        (HandleStageView::RegisterKey(given), ReplyView::Text(file)) => answer(
            url,
            api::register_answer(cfg.wireguard, given, file),
            StepView::stop(),
        ),
        (s, _) => (s, StepView::stop()),
    }
}

fn respond(url: &str, a: (i32, String), step: Step) -> (r: (HandleStage, Step))
    ensures
        (r.0@, r.1@) == answer(url@, (a.0, a.1@), step@),
{
    (
        HandleStage::Done(Response { status: a.0, content_type: content_type(url), body: a.1 }),
        step,
    )
}

fn ask(stage: HandleStage, q: Query) -> (r: (HandleStage, Step))
    ensures
        (r.0@, r.1@) == wait(stage@, q@),
{
    (stage, Step::stop().then_ask(q))
}

fn refuse(url: &str) -> (r: (HandleStage, Step))
    ensures
        (r.0@, r.1@) == answer(url@, bad_request(), StepView::stop()),
{
    respond(url, (400, "{\"error\":\"bad request\"}".to_string()), Step::stop())
}

fn refuse_tunnel(url: &str) -> (r: (HandleStage, Step))
    ensures
        (r.0@, r.1@) == answer(url@, api::tunnel_off(), StepView::stop()),
{
    respond(url, (404, "{\"error\":\"WireGuard not enabled\"}".to_string()), Step::stop())
}

fn start(cfg: &Config, to: Route, url: &str) -> (r: (HandleStage, Step))
    ensures
        (r.0@, r.1@) == begin(cfg@, to, url@),
        r.0@.wf(),
{
    match to {
        Route::Status => ask(HandleStage::Farm, Query::Farm),
        Route::Workers => ask(HandleStage::Workers, Query::Workers),
        Route::Queue => ask(HandleStage::Queue, Query::Packages),
        Route::Jobs => ask(HandleStage::Jobs, Query::Jobs),
        Route::ServerInfo => {
            if cfg.wireguard.enabled {
                ask(HandleStage::ServerInfo, Query::ReadText(wg_pubkey_path(&cfg.wireguard)))
            } else {
                refuse_tunnel(url)
            }
        },
        Route::Peers => {
            if cfg.wireguard.enabled {
                ask(HandleStage::Peers, Query::Peers)
            } else {
                refuse_tunnel(url)
            }
        },
        Route::QueueAdd => ask(HandleStage::AddRead, Query::QueueRequest),
        Route::QueueProcess => ask(HandleStage::Processing, Query::ProcessQueue),
        Route::JobSubmit => ask(HandleStage::JobRead, Query::JobSubmit),
        Route::JobReport => ask(HandleStage::ReportRead, Query::JobReport),
        Route::PackagesPush => ask(HandleStage::Pushing, Query::PushPackages),
        Route::GatewaySync => ask(HandleStage::SyncRead, Query::SyncRequest),
        Route::Heartbeat => ask(HandleStage::BeatRead, Query::Heartbeat),
        Route::Register => ask(HandleStage::RegisterRead, Query::RegisterRequest),
        Route::Ui => respond(
            url,
            (200, webui_html(&cfg.farm, cfg.wireguard.enabled)),
            Step::stop(),
        ),
        Route::NotFound => respond(
            url,
            (404, "{\"error\":\"not found\"}".to_string()),
            Step::stop(),
        ),
    }
}

/// A second copy of a job.
fn copy_job(job: &NewJob) -> (r: NewJob)
    ensures
        r@ == job@,
{
    let content = job.content.clone();
    assert(content@ =~= job.content@);
    NewJob {
        filename: job.filename.as_str().to_string(),
        content,
        submitted_by: job.submitted_by.as_str().to_string(),
        status: job.status.as_str().to_string(),
        submitted_at: job.submitted_at,
    }
}

/// How the handling of a request goes on, until there is an answer to it.
#[verifier::rlimit(40)]
pub fn handle_request(
    cfg: &Config,
    method: &str,
    url: &str,
    stage: HandleStage,
    reply: Reply,
) -> (r: (HandleStage, Step))
    requires
        stage@.wf(),
    ensures
        (r.0@, r.1@) == handle_step(cfg@, method@, url@, stage@, reply@),
        r.0@.wf(),
{
    match (stage, reply) {
        (HandleStage::Start, _) => start(cfg, route(method, url), url),
        (HandleStage::Farm, Reply::Farm(f)) => respond(
            url,
            api_status(&cfg.wireguard, &f),
            Step::stop(),
        ),
        (HandleStage::Workers, Reply::Workers(rows)) => respond(
            url,
            api_workers(&rows),
            Step::stop(),
        ),
        (HandleStage::Queue, Reply::Packages(rows)) => respond(
            url,
            api_queue(&rows),
            Step::stop(),
        ),
        (HandleStage::Jobs, Reply::Jobs(rows)) => respond(url, api_jobs(&rows), Step::stop()),
        (HandleStage::ServerInfo, Reply::Text(file)) => respond(
            url,
            api_wg_server_info(&cfg.wireguard, &file),
            Step::stop(),
        ),
        (HandleStage::Peers, Reply::Peers(rows)) => respond(
            url,
            api_wg_peers(&cfg.wireguard, &rows),
            Step::stop(),
        ),
        (HandleStage::AddRead, Reply::QueueRequest(q)) => match q {
            None => refuse(url),
            Some(req) => ask(HandleStage::AddRows(req), Query::Packages),
        },
        (HandleStage::AddRows(req), Reply::Packages(rows)) => ask(
            HandleStage::AddTime(req, rows),
            Query::Clock,
        ),
        (HandleStage::AddTime(req, rows), Reply::Time(t)) => {
            let (status, body, add) = api_queue_add(&rows, Some(req), t);
            let step = match add {
                Some(p) => Step::stop().with(Effect::AddPackage(p)),
                None => Step::stop(),
            };
            respond(url, (status, body), step)
        },
        (HandleStage::Processing, Reply::Finished) => ask(
            HandleStage::ProcessPushing,
            Query::PushPackages,
        ),
        (HandleStage::ProcessPushing, Reply::Finished) => respond(
            url,
            (200, "{\"ok\":true,\"msg\":\"queue processed\"}".to_string()),
            Step::stop(),
        ),
        (HandleStage::Pushing, Reply::Finished) => respond(
            url,
            (200, "{\"ok\":true,\"msg\":\"push signal written\"}".to_string()),
            Step::stop(),
        ),
        (HandleStage::JobRead, Reply::JobSubmit(j)) => match j {
            None => refuse(url),
            Some(req) => {
                if base64_decodable(req.content.as_str()) {
                    ask(HandleStage::JobTime(req), Query::Clock)
                } else {
                    (
                        HandleStage::JobRead,
                        Step::stop().with(
                            Effect::Abort("base64 content ends too early".to_string()),
                        ),
                    )
                }
            },
        },
        (HandleStage::JobTime(req), Reply::Time(t)) => {
            match api_job_submit(Some(req), t) {
                Ok(job) => {
                    let q = Query::AddJob(copy_job(&job));
                    ask(HandleStage::JobSave(job), q)
                },
                Err(e) => respond(url, e, Step::stop()),
            }
        },
        (HandleStage::JobSave(job), Reply::Id(id)) => {
            let (step, status, body) = job_stored(job, id);
            respond(url, (status, body), step)
        },
        (HandleStage::ReportRead, Reply::JobReport(r)) => match r {
            None => refuse(url),
            Some(report) => ask(HandleStage::ReportRows(report), Query::Jobs),
        },
        (HandleStage::ReportRows(report), Reply::Jobs(rows)) => ask(
            HandleStage::ReportTime(report, rows),
            Query::Clock,
        ),
        (HandleStage::ReportTime(report, rows), Reply::Time(t)) => {
            let (status, body, outcome) = api_job_report(&rows, Some(report), t);
            let step = match outcome {
                Some(o) => Step::stop().with(Effect::FinishJob(o)),
                None => Step::stop(),
            };
            respond(url, (status, body), step)
        },
        (HandleStage::SyncRead, Reply::Text(by)) => {
            let name = match by {
                Some(n) => n,
                None => "api".to_string(),
            };
            ask(HandleStage::Syncing, Query::SyncGateway(name))
        },
        (HandleStage::Syncing, Reply::Finished) => respond(
            url,
            (200, "{\"ok\":true,\"msg\":\"gateway sync complete\"}".to_string()),
            Step::stop(),
        ),
        (HandleStage::BeatRead, Reply::Heartbeat(h)) => match h {
            None => refuse(url),
            Some(hb) => ask(HandleStage::BeatRows(hb), Query::Workers),
        },
        (HandleStage::BeatRows(hb), Reply::Workers(rows)) => ask(
            HandleStage::BeatTime(hb, rows),
            Query::Clock,
        ),
        (HandleStage::BeatTime(hb, rows), Reply::Time(t)) => {
            let (status, body, change) = api_worker_heartbeat(&rows, Some(hb), t);
            let step = match change {
                Some(c) => Step::stop().with(Effect::SaveWorker(c)),
                None => Step::stop(),
            };
            respond(url, (status, body), step)
        },
        (HandleStage::RegisterRead, Reply::RegisterRequest(q)) => match q {
            None => respond(
                url,
                (
                    400,
                    "{\"error\":\"bad request \u{2014} expected {\\\"name\\\":\\\"...\\\",\\\"public_key\\\":\\\"...\\\"}\"}".to_string(),
                ),
                Step::stop(),
            ),
            Some(req) => ask(HandleStage::Registering, Query::Register(req.name, req.public_key)),
        },
        (HandleStage::Registering, Reply::Registered(given)) => match given {
            Ok(ip) => ask(
                HandleStage::RegisterKey(Ok(ip)),
                Query::ReadText(wg_pubkey_path(&cfg.wireguard)),
            ),
            Err(e) => respond(
                url,
                api_wg_register_worker(&cfg.wireguard, &Err(e), &None),
                Step::stop(),
            ),
        },
        (HandleStage::RegisterKey(given), Reply::Text(file)) => respond(
            url,
            api_wg_register_worker(&cfg.wireguard, &given, &file),
            Step::stop(),
        ),
        (s, _) => (s, Step::stop()),
    }
}

/// How many answers the handling of a request can still need.
pub open spec fn rank(s: HandleStageView) -> nat {
    match s {
        HandleStageView::Done(_) => 0,
        HandleStageView::Start => 5,
        HandleStageView::AddRead | HandleStageView::JobRead | HandleStageView::ReportRead
        | HandleStageView::BeatRead | HandleStageView::RegisterRead => 3,
        HandleStageView::AddRows(_) | HandleStageView::JobTime(_) | HandleStageView::ReportRows(_)
        | HandleStageView::BeatRows(_) | HandleStageView::Registering | HandleStageView::Processing | HandleStageView::SyncRead => 2,
        _ => 1,
    }
}

/// Whether a stage waits for such a reply.
pub open spec fn awaits(s: HandleStageView, r: ReplyView) -> bool {
    match s {
        HandleStageView::Start => true,
        HandleStageView::Farm => r is Farm,
        HandleStageView::Workers | HandleStageView::BeatRows(_) => r is Workers,
        HandleStageView::Queue | HandleStageView::AddRows(_) => r is Packages,
        HandleStageView::Jobs | HandleStageView::ReportRows(_) => r is Jobs,
        HandleStageView::ReportRead => r is JobReport,
        HandleStageView::ServerInfo | HandleStageView::SyncRead
        | HandleStageView::RegisterKey(_) => r is Text,
        HandleStageView::Peers => r is Peers,
        HandleStageView::AddRead => r is QueueRequest,
        HandleStageView::AddTime(_, _) | HandleStageView::JobTime(_)
        | HandleStageView::ReportTime(_, _) | HandleStageView::BeatTime(_, _) => r is Time,
        HandleStageView::Processing | HandleStageView::ProcessPushing | HandleStageView::Pushing
        | HandleStageView::Syncing => r is Finished,
        HandleStageView::JobRead => r is JobSubmit,
        HandleStageView::JobSave(_) => r is Id,
        HandleStageView::BeatRead => r is Heartbeat,
        HandleStageView::RegisterRead => r is RegisterRequest,
        HandleStageView::Registering => r is Registered,
        HandleStageView::Done(_) => false,
    }
}

/// Every request is answered: a reply that a stage waits for leads nearer to the answer, or aborts
/// where the bytes of a job end in the middle of a group.
pub proof fn law_reply_leads_on(
    cfg: ConfigView,
    method: Seq<char>,
    url: Seq<char>,
    stage: HandleStageView,
    reply: ReplyView,
)
    requires
        awaits(stage, reply),
    ensures
        ({
            let a = handle_step(cfg, method, url, stage, reply);
            ||| rank(a.0) < rank(stage)
            ||| a.1 == StepView::stop().with(EffectView::Abort("base64 content ends too early"@))
        }),
{
}

/// Until there is an answer something is asked, and just what the stage then waits for.
#[verifier::rlimit(40)]
pub proof fn law_asked_for_what_is_awaited(
    cfg: ConfigView,
    method: Seq<char>,
    url: Seq<char>,
    stage: HandleStageView,
    reply: ReplyView,
    next: ReplyView,
)
    requires
        awaits(stage, reply),
        rank(handle_step(cfg, method, url, stage, reply).0) < rank(stage),
    ensures
        ({
            let a = handle_step(cfg, method, url, stage, reply);
            &&& a.0 is Done <==> a.1.ask is None
            &&& a.1.ask matches Some(q) ==> (work::fits(q, next) <==> awaits(a.0, next))
        }),
{
}

/// What is not offered is not found, and nothing is done for it.
pub proof fn law_not_found(cfg: ConfigView, method: Seq<char>, url: Seq<char>, reply: ReplyView)
    requires
        api::route_of(method, url) is NotFound,
    ensures
        handle_step(cfg, method, url, HandleStageView::Start, reply) == (
            HandleStageView::Done(
                (ResponseView {
                    status: 404,
                    content_type: api::type_of(url),
                    body: "{\"error\":\"not found\"}"@,
                }),
            ),
            StepView::stop(),
        ),
{
}

/// A GET request changes nothing: its steps have no effects, and ask only to be told.
pub proof fn law_get_changes_nothing(
    cfg: ConfigView,
    url: Seq<char>,
    reply: ReplyView,
    next: ReplyView,
)
    ensures
        ({
            let a = handle_step(cfg, "GET"@, url, HandleStageView::Start, reply);
            &&& a.1.effects.len() == 0
            &&& a.1.ask matches Some(q) ==> {
                &&& q is Farm || q is Workers || q is Packages || q is Jobs || q is ReadText
                    || q is Peers
                &&& work::fits(q, next) ==> {
                    let b = handle_step(cfg, "GET"@, url, a.0, next);
                    b.0 is Done && b.1 == StepView::stop()
                }
            }
        }),
{
}

/// While the tunnel is off, what concerns it is refused, and nothing is done for it.
pub proof fn law_tunnel_off(
    cfg: ConfigView,
    method: Seq<char>,
    url: Seq<char>,
    reply: ReplyView,
)
    requires
        !cfg.wireguard.enabled,
        api::route_of(method, url) is ServerInfo || api::route_of(method, url) is Peers,
    ensures
        handle_step(cfg, method, url, HandleStageView::Start, reply) == answer(
            url,
            api::tunnel_off(),
            StepView::stop(),
        ),
{
}

/// Nor is a worker let into it: the request ends in the registration's own refusal.
pub proof fn law_tunnel_off_registration(
    cfg: ConfigView,
    method: Seq<char>,
    url: Seq<char>,
    name: Seq<char>,
    key: Seq<char>,
)
    requires
        !cfg.wireguard.enabled,
    ensures
        ({
            let why = "WireGuard is not enabled on this orchestrator"@;
            &&& peers::register_step(
                cfg.wireguard,
                name,
                key,
                peers::RegisterStageView::Start,
                ReplyView::Begin,
            ) == (peers::RegisterStageView::Done(Err(why)), StepView::stop())
            &&& handle_step(
                cfg,
                method,
                url,
                HandleStageView::Registering,
                ReplyView::Registered(Err(why)),
            ) == answer(url, (500, "{\"error\":\""@ + why + "\"}"@), StepView::stop())
        }),
{
}

/// A submitted file is stored and handed out byte for byte.
pub proof fn law_submission_run(
    cfg: ConfigView,
    method: Seq<char>,
    url: Seq<char>,
    filename: Seq<char>,
    content: Seq<u8>,
    by: Seq<char>,
    t: i64,
    id: i64,
)
    ensures
        ({
            let req = JobSubmitView { filename, content: base64::encoded(content), submitted_by: by };
            let a = handle_step(
                cfg,
                method,
                url,
                HandleStageView::JobRead,
                ReplyView::JobSubmit(Some(req)),
            );
            let b = handle_step(cfg, method, url, a.0, ReplyView::Time(t));
            let c = handle_step(cfg, method, url, b.0, ReplyView::Id(id));
            let job = NewJobView {
                filename,
                content,
                submitted_by: by,
                status: "queued"@,
                submitted_at: t,
            };
            &&& a.1.ask == Some(QueryView::Clock)
            &&& b.1.ask == Some(QueryView::AddJob(job))
            &&& c.0 is Done
            &&& c.1.effects.contains(
                EffectView::WriteBytes(jobs::job_path(id, filename), content),
            )
        }),
{
    jobs::law_submitted_file_arrives(filename, content, by, t, id);
}

/// A heartbeat that could be read is answered, and the worker's row is stored as it says.
pub proof fn law_heartbeat_run(
    cfg: ConfigView,
    method: Seq<char>,
    url: Seq<char>,
    hb: WorkerHeartbeatView,
    rows: Seq<WorkerRowView>,
    t: i64,
)
    ensures
        ({
            let a = handle_step(
                cfg,
                method,
                url,
                HandleStageView::BeatRead,
                ReplyView::Heartbeat(Some(hb)),
            );
            let b = handle_step(cfg, method, url, a.0, ReplyView::Workers(rows));
            let c = handle_step(cfg, method, url, b.0, ReplyView::Time(t));
            let change = workers::heartbeat_answer(rows, Some(hb), t).2->0;
            &&& a.1.ask == Some(QueryView::Workers)
            &&& b.1.ask == Some(QueryView::Clock)
            &&& c == answer(
                url,
                (200, "{\"ok\":true}"@),
                StepView::stop().with(EffectView::SaveWorker(change)),
            )
        }),
{
}

/// A request for a package that could be read is answered, and the package joins the queue unless
/// it is on its way to the worker.
pub proof fn law_queue_add_run(
    cfg: ConfigView,
    method: Seq<char>,
    url: Seq<char>,
    req: QueueRequestView,
    rows: Seq<PackageRowView>,
    t: i64,
)
    ensures
        ({
            let a = handle_step(
                cfg,
                method,
                url,
                HandleStageView::AddRead,
                ReplyView::QueueRequest(Some(req)),
            );
            let b = handle_step(cfg, method, url, a.0, ReplyView::Packages(rows));
            let c = handle_step(cfg, method, url, b.0, ReplyView::Time(t));
            &&& a.1.ask == Some(QueryView::Packages)
            &&& b.1.ask == Some(QueryView::Clock)
            &&& c.0 is Done
            &&& packages::queued(rows, req.package_name, req.worker_id) ==> c.1 == StepView::stop()
            &&& !packages::queued(rows, req.package_name, req.worker_id) ==> c.1
                == StepView::stop().with(
                EffectView::AddPackage(packages::addition(rows, req, t)->0),
            )
        }),
{
}

/// A report on a job that there is sets that job's status and worker.
pub proof fn law_report_run(
    cfg: ConfigView,
    method: Seq<char>,
    url: Seq<char>,
    report: JobReportView,
    id: i64,
    rows: Seq<JobRowView>,
    t: i64,
)
    requires
        jobs::is_final(report.status),
        report.job_id == Some(id),
        jobs::known(rows, id),
    ensures
        ({
            let a = handle_step(
                cfg,
                method,
                url,
                HandleStageView::ReportRead,
                ReplyView::JobReport(Some(report)),
            );
            let b = handle_step(cfg, method, url, a.0, ReplyView::Jobs(rows));
            let c = handle_step(cfg, method, url, b.0, ReplyView::Time(t));
            let outcome = JobOutcomeView {
                id,
                status: report.status,
                worker_id: report.worker_id,
                completed_at: t,
            };
            &&& a.1.ask == Some(QueryView::Jobs)
            &&& b.1.ask == Some(QueryView::Clock)
            &&& c == answer(
                url,
                (200, "{\"ok\":true}"@),
                StepView::stop().with(EffectView::FinishJob(outcome)),
            )
        }),
{
}

/// An answer with a status and a body, of the type of all but the dashboard.
pub open spec fn json_answer(status: i32, body: Seq<char>) -> HandleStageView {
    HandleStageView::Done(ResponseView { status, content_type: "application/json"@, body })
}

proof fn lemma_json_type(url: Seq<char>)
    requires
        url.len() > 1,
        url[1] == 'a',
    ensures
        api::type_of(url) == "application/json"@,
{
    reveal_strlit("/ui");
    reveal_strlit("/");
    if text::begins(url, "/ui"@) {
        assert(url.take(3)[1] == url[1]);
    }
}

/// What is asked of the farm, and answered, under each address that tells something: its numbers,
/// its workers, its queue and its jobs.
pub proof fn law_what_is_told(
    cfg: ConfigView,
    f: FarmView,
    ws: Seq<WorkerRowView>,
    ps: Seq<PackageRowView>,
    js: Seq<JobRowView>,
)
    ensures
        ({
            let a = handle_step(cfg, "GET"@, "/api/status"@, HandleStageView::Start, ReplyView::Begin);
            let b = handle_step(cfg, "GET"@, "/api/status"@, a.0, ReplyView::Farm(f));
            &&& a.1 == StepView::stop().then_ask(QueryView::Farm)
            &&& b == (
                json_answer(200, api::status_text(cfg.wireguard.enabled, f)),
                StepView::stop(),
            )
        }),
        ({
            let a = handle_step(cfg, "GET"@, "/api/workers"@, HandleStageView::Start, ReplyView::Begin);
            let b = handle_step(cfg, "GET"@, "/api/workers"@, a.0, ReplyView::Workers(ws));
            &&& a.1 == StepView::stop().then_ask(QueryView::Workers)
            &&& b == (
                json_answer(200, json_text::array(workers::worker_lines(ws))),
                StepView::stop(),
            )
        }),
        ({
            let a = handle_step(cfg, "GET"@, "/api/queue"@, HandleStageView::Start, ReplyView::Begin);
            let b = handle_step(cfg, "GET"@, "/api/queue"@, a.0, ReplyView::Packages(ps));
            &&& a.1 == StepView::stop().then_ask(QueryView::Packages)
            &&& b == (
                json_answer(200, json_text::array(packages::queue_lines(ps))),
                StepView::stop(),
            )
        }),
        ({
            let a = handle_step(cfg, "GET"@, "/api/jobs"@, HandleStageView::Start, ReplyView::Begin);
            let b = handle_step(cfg, "GET"@, "/api/jobs"@, a.0, ReplyView::Jobs(js));
            &&& a.1 == StepView::stop().then_ask(QueryView::Jobs)
            &&& b == (json_answer(200, json_text::array(jobs::job_lines(js))), StepView::stop())
        }),
{
    api::law_routes("GET"@, "/api/status"@);
    api::law_routes("GET"@, "/api/workers"@);
    api::law_routes("GET"@, "/api/queue"@);
    api::law_routes("GET"@, "/api/jobs"@);
    reveal_strlit("/api/status");
    reveal_strlit("/api/workers");
    reveal_strlit("/api/queue");
    reveal_strlit("/api/jobs");
    lemma_json_type("/api/status"@);
    lemma_json_type("/api/workers"@);
    lemma_json_type("/api/queue"@);
    lemma_json_type("/api/jobs"@);
}

/// What is told of the tunnel: while it is on, the server's public key is read from the file of the
/// interface, and the peers are listed; while it is off, both are refused at once.
pub proof fn law_what_is_told_of_the_tunnel(
    cfg: ConfigView,
    file: Option<Seq<char>>,
    rows: Seq<PeerRowView>,
)
    ensures
        ({
            let url = "/api/wg/server-info"@;
            let a = handle_step(cfg, "GET"@, url, HandleStageView::Start, ReplyView::Begin);
            let b = handle_step(cfg, "GET"@, url, a.0, ReplyView::Text(file));
            let told = api::server_info(cfg.wireguard, file);
            &&& cfg.wireguard.enabled ==> a.1 == StepView::stop().then_ask(
                QueryView::ReadText("/etc/smech-farm/"@ + cfg.wireguard.interface + ".pub"@),
            ) && b == (json_answer(told.0, told.1), StepView::stop())
            &&& !cfg.wireguard.enabled ==> a == (
                json_answer(404, "{\"error\":\"WireGuard not enabled\"}"@),
                StepView::stop(),
            )
        }),
        ({
            let url = "/api/wg/peers"@;
            let a = handle_step(cfg, "GET"@, url, HandleStageView::Start, ReplyView::Begin);
            let b = handle_step(cfg, "GET"@, url, a.0, ReplyView::Peers(rows));
            &&& cfg.wireguard.enabled ==> a.1 == StepView::stop().then_ask(QueryView::Peers) && b == (
                json_answer(200, json_text::array(api::peer_lines(rows))),
                StepView::stop(),
            )
            &&& !cfg.wireguard.enabled ==> a == (
                json_answer(404, "{\"error\":\"WireGuard not enabled\"}"@),
                StepView::stop(),
            )
        }),
{
    api::law_routes("GET"@, "/api/wg/server-info"@);
    api::law_routes("GET"@, "/api/wg/peers"@);
    reveal_strlit("/api/wg/server-info");
    reveal_strlit("/api/wg/peers");
    lemma_json_type("/api/wg/server-info"@);
    lemma_json_type("/api/wg/peers"@);
}

/// The dashboard stands under `/ui` and `/`, as a page.
pub proof fn law_dashboard(cfg: ConfigView, url: Seq<char>)
    requires
        url == "/ui"@ || url == "/"@,
    ensures
        handle_step(cfg, "GET"@, url, HandleStageView::Start, ReplyView::Begin) == (
            HandleStageView::Done(
                (ResponseView {
                    status: 200,
                    content_type: "text/html; charset=utf-8"@,
                    body: webui::page(cfg.farm, cfg.wireguard.enabled),
                }),
            ),
            StepView::stop(),
        ),
{
    api::law_routes("GET"@, url);
    api::law_content_types(url, Seq::empty());
    assert("/ui"@ + Seq::empty() =~= "/ui"@);
}

/// What each request to do something asks for first.
pub proof fn law_what_a_post_asks_first(cfg: ConfigView, url: Seq<char>)
    ensures
        ({
            let a = handle_step(cfg, "POST"@, url, HandleStageView::Start, ReplyView::Begin).1;
            &&& url == "/api/queue/add"@ ==> a == StepView::stop().then_ask(QueryView::QueueRequest)
            &&& url == "/api/queue/process"@ ==> a == StepView::stop().then_ask(
                QueryView::ProcessQueue,
            )
            &&& url == "/api/jobs/submit"@ ==> a == StepView::stop().then_ask(QueryView::JobSubmit)
            &&& url == "/api/jobs/report"@ ==> a == StepView::stop().then_ask(QueryView::JobReport)
            &&& url == "/api/packages/push"@ ==> a == StepView::stop().then_ask(
                QueryView::PushPackages,
            )
            &&& url == "/api/gateway/sync"@ ==> a == StepView::stop().then_ask(QueryView::SyncRequest)
            &&& url == "/api/workers/heartbeat"@ ==> a == StepView::stop().then_ask(
                QueryView::Heartbeat,
            )
            &&& url == "/api/wg/register-worker"@ ==> a == StepView::stop().then_ask(
                QueryView::RegisterRequest,
            )
        }),
{
    api::law_routes("POST"@, url);
}

/// A body that cannot be read is refused, whatever it should have been, and nothing is done.
pub proof fn law_unreadable_is_refused(cfg: ConfigView, url: Seq<char>)
    requires
        url == "/api/queue/add"@ || url == "/api/jobs/submit"@ || url == "/api/jobs/report"@ || url
            == "/api/workers/heartbeat"@,
    ensures
        ({
            let a = handle_step(cfg, "POST"@, url, HandleStageView::Start, ReplyView::Begin);
            let reply = if url == "/api/queue/add"@ {
                ReplyView::QueueRequest(None)
            } else if url == "/api/jobs/submit"@ {
                ReplyView::JobSubmit(None)
            } else if url == "/api/jobs/report"@ {
                ReplyView::JobReport(None)
            } else {
                ReplyView::Heartbeat(None)
            };
            handle_step(cfg, "POST"@, url, a.0, reply) == (
                json_answer(400, "{\"error\":\"bad request\"}"@),
                StepView::stop(),
            )
        }),
{
    api::law_routes("POST"@, url);
    reveal_strlit("/api/queue/add");
    reveal_strlit("/api/jobs/submit");
    reveal_strlit("/api/jobs/report");
    reveal_strlit("/api/workers/heartbeat");
    lemma_json_type(url);
}

/// Working the queue off is followed by telling the workers, and then answered; so is telling them
/// alone; and a sync runs for who asked for it, or for `api` where nobody is named.
pub proof fn law_what_is_done_on_request(cfg: ConfigView, by: Option<Seq<char>>)
    ensures
        ({
            let url = "/api/queue/process"@;
            let a = handle_step(cfg, "POST"@, url, HandleStageView::Start, ReplyView::Begin);
            let b = handle_step(cfg, "POST"@, url, a.0, ReplyView::Finished);
            let c = handle_step(cfg, "POST"@, url, b.0, ReplyView::Finished);
            &&& a.1 == StepView::stop().then_ask(QueryView::ProcessQueue)
            &&& b.1 == StepView::stop().then_ask(QueryView::PushPackages)
            &&& c == (
                json_answer(200, "{\"ok\":true,\"msg\":\"queue processed\"}"@),
                StepView::stop(),
            )
        }),
        ({
            let url = "/api/packages/push"@;
            let a = handle_step(cfg, "POST"@, url, HandleStageView::Start, ReplyView::Begin);
            let b = handle_step(cfg, "POST"@, url, a.0, ReplyView::Finished);
            &&& a.1 == StepView::stop().then_ask(QueryView::PushPackages)
            &&& b == (
                json_answer(200, "{\"ok\":true,\"msg\":\"push signal written\"}"@),
                StepView::stop(),
            )
        }),
        ({
            let url = "/api/gateway/sync"@;
            let a = handle_step(cfg, "POST"@, url, HandleStageView::Start, ReplyView::Begin);
            let b = handle_step(cfg, "POST"@, url, a.0, ReplyView::Text(by));
            let c = handle_step(cfg, "POST"@, url, b.0, ReplyView::Finished);
            &&& a.1 == StepView::stop().then_ask(QueryView::SyncRequest)
            &&& b.1 == StepView::stop().then_ask(
                QueryView::SyncGateway(
                    match by {
                        Some(name) => name,
                        None => "api"@,
                    },
                ),
            )
            &&& c == (
                json_answer(200, "{\"ok\":true,\"msg\":\"gateway sync complete\"}"@),
                StepView::stop(),
            )
        }),
{
    api::law_routes("POST"@, "/api/queue/process"@);
    api::law_routes("POST"@, "/api/packages/push"@);
    api::law_routes("POST"@, "/api/gateway/sync"@);
    reveal_strlit("/api/queue/process");
    reveal_strlit("/api/packages/push");
    reveal_strlit("/api/gateway/sync");
    lemma_json_type("/api/queue/process"@);
    lemma_json_type("/api/packages/push"@);
    lemma_json_type("/api/gateway/sync"@);
}

/// A request for a package is answered with whether the package joined the queue, and it joins with
/// what the request says.
pub proof fn law_package_request(
    cfg: ConfigView,
    req: QueueRequestView,
    rows: Seq<PackageRowView>,
    t: i64,
)
    ensures
        ({
            let url = "/api/queue/add"@;
            let a = handle_step(cfg, "POST"@, url, HandleStageView::Start, ReplyView::Begin);
            let b = handle_step(cfg, "POST"@, url, a.0, ReplyView::QueueRequest(Some(req)));
            let c = handle_step(cfg, "POST"@, url, b.0, ReplyView::Packages(rows));
            let d = handle_step(cfg, "POST"@, url, c.0, ReplyView::Time(t));
            &&& b.1 == StepView::stop().then_ask(QueryView::Packages)
            &&& c.1 == StepView::stop().then_ask(QueryView::Clock)
            &&& d == match packages::addition(rows, req, t) {
                Some(p) => (
                    json_answer(200, "{\"ok\":true,\"msg\":\"queued\"}"@),
                    StepView::stop().with(EffectView::AddPackage(p)),
                ),
                None => (
                    json_answer(200, "{\"ok\":true,\"msg\":\"already queued\"}"@),
                    StepView::stop(),
                ),
            }
        }),
{
    api::law_routes("POST"@, "/api/queue/add"@);
    reveal_strlit("/api/queue/add");
    lemma_json_type("/api/queue/add"@);
}

/// A submission that can be decoded is stored at the given time, handed out under the number that it
/// is stored with, and answered with that number; one that cannot be decoded goes no further.
pub proof fn law_submission(cfg: ConfigView, req: JobSubmitView, t: i64, id: i64)
    ensures
        ({
            let url = "/api/jobs/submit"@;
            let a = handle_step(cfg, "POST"@, url, HandleStageView::Start, ReplyView::Begin);
            let b = handle_step(cfg, "POST"@, url, a.0, ReplyView::JobSubmit(Some(req)));
            let c = handle_step(cfg, "POST"@, url, b.0, ReplyView::Time(t));
            let d = handle_step(cfg, "POST"@, url, c.0, ReplyView::Id(id));
            let job = NewJobView {
                filename: req.filename,
                content: base64::decoded(req.content),
                submitted_by: req.submitted_by,
                status: "queued"@,
                submitted_at: t,
            };
            &&& base64::decodable(req.content) ==> {
                &&& b.1 == StepView::stop().then_ask(QueryView::Clock)
                &&& c.1 == StepView::stop().then_ask(QueryView::AddJob(job))
                &&& d == (
                    json_answer(
                        200,
                        "{\"ok\":true,\"job_id\":"@ + text::int_text(id as int) + "}"@,
                    ),
                    jobs::handed_out(job, id),
                )
            }
            &&& !base64::decodable(req.content) ==> b.1 == StepView::stop().with(
                EffectView::Abort("base64 content ends too early"@),
            )
        }),
{
    api::law_routes("POST"@, "/api/jobs/submit"@);
    reveal_strlit("/api/jobs/submit");
    lemma_json_type("/api/jobs/submit"@);
}

/// A heartbeat is stored as a row that holds what it says, and a report as what became of its job.
pub proof fn law_what_workers_send(
    cfg: ConfigView,
    hb: WorkerHeartbeatView,
    ws: Seq<WorkerRowView>,
    report: JobReportView,
    js: Seq<JobRowView>,
    t: i64,
)
    ensures
        ({
            let url = "/api/workers/heartbeat"@;
            let a = handle_step(cfg, "POST"@, url, HandleStageView::Start, ReplyView::Begin);
            let b = handle_step(cfg, "POST"@, url, a.0, ReplyView::Heartbeat(Some(hb)));
            let c = handle_step(cfg, "POST"@, url, b.0, ReplyView::Workers(ws));
            let d = handle_step(cfg, "POST"@, url, c.0, ReplyView::Time(t));
            let row = WorkerRowView {
                id: hb.id,
                hostname: hb.hostname,
                ip_addr: hb.ip_addr,
                cores: hb.cores as i64,
                last_seen: t,
                status: "online"@,
            };
            &&& b.1 == StepView::stop().then_ask(QueryView::Workers)
            &&& c.1 == StepView::stop().then_ask(QueryView::Clock)
            &&& d.0 == json_answer(200, "{\"ok\":true}"@)
            &&& d.1 == StepView::stop().with(
                EffectView::SaveWorker(
                    if workers::known(ws, hb.id) {
                        records::WorkerChangeView::Update(row)
                    } else {
                        records::WorkerChangeView::Insert(row)
                    },
                ),
            )
        }),
        ({
            let url = "/api/jobs/report"@;
            let a = handle_step(cfg, "POST"@, url, HandleStageView::Start, ReplyView::Begin);
            let b = handle_step(cfg, "POST"@, url, a.0, ReplyView::JobReport(Some(report)));
            let c = handle_step(cfg, "POST"@, url, b.0, ReplyView::Jobs(js));
            let d = handle_step(cfg, "POST"@, url, c.0, ReplyView::Time(t));
            let said = jobs::report_answer(js, Some(report), t);
            &&& b.1 == StepView::stop().then_ask(QueryView::Jobs)
            &&& c.1 == StepView::stop().then_ask(QueryView::Clock)
            &&& d == (
                json_answer(said.0, said.1),
                match said.2 {
                    Some(o) => StepView::stop().with(EffectView::FinishJob(o)),
                    None => StepView::stop(),
                },
            )
        }),
{
    api::law_routes("POST"@, "/api/workers/heartbeat"@);
    api::law_routes("POST"@, "/api/jobs/report"@);
    reveal_strlit("/api/workers/heartbeat");
    reveal_strlit("/api/jobs/report");
    lemma_json_type("/api/workers/heartbeat"@);
    lemma_json_type("/api/jobs/report"@);
}

/// A worker that asks to be let into the tunnel is registered under its own name and key, and told
/// what it needs, or why it was not let in.
pub proof fn law_letting_in(
    cfg: ConfigView,
    req: WgRegisterReqView,
    ip: Seq<char>,
    why: Seq<char>,
    file: Option<Seq<char>>,
)
    ensures
        ({
            let url = "/api/wg/register-worker"@;
            let a = handle_step(cfg, "POST"@, url, HandleStageView::Start, ReplyView::Begin);
            let b = handle_step(cfg, "POST"@, url, a.0, ReplyView::RegisterRequest(Some(req)));
            let c = handle_step(cfg, "POST"@, url, b.0, ReplyView::Registered(Ok(ip)));
            let d = handle_step(cfg, "POST"@, url, c.0, ReplyView::Text(file));
            let told = api::register_answer(cfg.wireguard, Ok(ip), file);
            let no = handle_step(cfg, "POST"@, url, b.0, ReplyView::Registered(Err(why)));
            let odd = handle_step(cfg, "POST"@, url, a.0, ReplyView::RegisterRequest(None));
            &&& b.1 == StepView::stop().then_ask(QueryView::Register(req.name, req.public_key))
            &&& c.1 == StepView::stop().then_ask(
                QueryView::ReadText("/etc/smech-farm/"@ + cfg.wireguard.interface + ".pub"@),
            )
            &&& d == (json_answer(told.0, told.1), StepView::stop())
            &&& no == (json_answer(500, "{\"error\":\""@ + why + "\"}"@), StepView::stop())
            &&& odd == (
                json_answer(
                    400,
                    "{\"error\":\"bad request \u{2014} expected {\\\"name\\\":\\\"...\\\",\\\"public_key\\\":\\\"...\\\"}\"}"@,
                ),
                StepView::stop(),
            )
        }),
{
    api::law_routes("POST"@, "/api/wg/register-worker"@);
    reveal_strlit("/api/wg/register-worker");
    lemma_json_type("/api/wg/register-worker"@);
}

/// Where a reply is not of the kind that was asked for, nothing is done and the same is awaited; once all
/// is done, nothing changes any more.
pub proof fn law_other_replies_change_nothing(
    cfg: ConfigView,
    method: Seq<char>,
    url: Seq<char>,
    stage: HandleStageView,
    reply: ReplyView,
)
    ensures
        stage is Farm && !(reply is Farm) ==> handle_step(cfg, method, url, stage, reply) == (stage, StepView::stop()),
        stage is Workers && !(reply is Workers) ==> handle_step(cfg, method, url, stage, reply) == (stage, StepView::stop()),
        stage is Queue && !(reply is Packages) ==> handle_step(cfg, method, url, stage, reply) == (stage, StepView::stop()),
        stage is Jobs && !(reply is Jobs) ==> handle_step(cfg, method, url, stage, reply) == (stage, StepView::stop()),
        stage is ServerInfo && !(reply is Text) ==> handle_step(cfg, method, url, stage, reply) == (stage, StepView::stop()),
        stage is Peers && !(reply is Peers) ==> handle_step(cfg, method, url, stage, reply) == (stage, StepView::stop()),
        stage is AddRead && !(reply is QueueRequest) ==> handle_step(cfg, method, url, stage, reply) == (stage, StepView::stop()),
        stage is AddRows && !(reply is Packages) ==> handle_step(cfg, method, url, stage, reply) == (stage, StepView::stop()),
        stage is AddTime && !(reply is Time) ==> handle_step(cfg, method, url, stage, reply) == (stage, StepView::stop()),
        stage is Processing && !(reply is Finished) ==> handle_step(cfg, method, url, stage, reply) == (stage, StepView::stop()),
        stage is ProcessPushing && !(reply is Finished) ==> handle_step(cfg, method, url, stage, reply) == (stage, StepView::stop()),
        stage is Pushing && !(reply is Finished) ==> handle_step(cfg, method, url, stage, reply) == (stage, StepView::stop()),
        stage is JobRead && !(reply is JobSubmit) ==> handle_step(cfg, method, url, stage, reply) == (stage, StepView::stop()),
        stage is JobTime && !(reply is Time) ==> handle_step(cfg, method, url, stage, reply) == (stage, StepView::stop()),
        stage is JobSave && !(reply is Id) ==> handle_step(cfg, method, url, stage, reply) == (stage, StepView::stop()),
        stage is ReportRead && !(reply is JobReport) ==> handle_step(cfg, method, url, stage, reply) == (stage, StepView::stop()),
        stage is ReportRows && !(reply is Jobs) ==> handle_step(cfg, method, url, stage, reply) == (stage, StepView::stop()),
        stage is ReportTime && !(reply is Time) ==> handle_step(cfg, method, url, stage, reply) == (stage, StepView::stop()),
        stage is SyncRead && !(reply is Text) ==> handle_step(cfg, method, url, stage, reply) == (stage, StepView::stop()),
        stage is Syncing && !(reply is Finished) ==> handle_step(cfg, method, url, stage, reply) == (stage, StepView::stop()),
        stage is BeatRead && !(reply is Heartbeat) ==> handle_step(cfg, method, url, stage, reply) == (stage, StepView::stop()),
        stage is BeatRows && !(reply is Workers) ==> handle_step(cfg, method, url, stage, reply) == (stage, StepView::stop()),
        stage is BeatTime && !(reply is Time) ==> handle_step(cfg, method, url, stage, reply) == (stage, StepView::stop()),
        stage is RegisterRead && !(reply is RegisterRequest) ==> handle_step(cfg, method, url, stage, reply) == (stage, StepView::stop()),
        stage is Registering && !(reply is Registered) ==> handle_step(cfg, method, url, stage, reply) == (stage, StepView::stop()),
        stage is RegisterKey && !(reply is Text) ==> handle_step(cfg, method, url, stage, reply) == (stage, StepView::stop()),
        stage is Done ==> handle_step(cfg, method, url, stage, reply) == (stage, StepView::stop()),
{
}

/// What an answer says is what its own field holds.
pub proof fn law_response_view(r: Response)
    ensures
        r@.status == r.status,
        r@.content_type == r.content_type@,
        r@.body == r.body@,
{
}

} // verus!
