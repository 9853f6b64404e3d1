//! The rows that the farm keeps, and the requests that it is sent.

use vstd::prelude::*;

verus! {

/// The views of the items of a sequence.
pub open spec fn views<T: View>(s: Seq<T>) -> Seq<T::V> {
    Seq::new(s.len(), |i: int| s[i]@)
}

/// The view of an optional text.
pub open spec fn opt_text(t: Option<String>) -> Option<Seq<char>> {
    match t {
        Some(s) => Some(s@),
        None => None,
    }
}

/// The view of a result whose error is a text.
pub open spec fn result_text(r: Result<String, String>) -> Result<Seq<char>, Seq<char>> {
    match r {
        Ok(s) => Ok(s@),
        Err(e) => Err(e@),
    }
}

/// A worker as the farm knows it.
#[derive(Debug, PartialEq, Eq)]
pub struct WorkerRow {
    pub id: String,
    pub hostname: String,
    pub ip_addr: String,
    pub cores: i64,
    pub last_seen: i64,
    pub status: String,
}

pub struct WorkerRowView {
    pub id: Seq<char>,
    pub hostname: Seq<char>,
    pub ip_addr: Seq<char>,
    pub cores: i64,
    pub last_seen: i64,
    pub status: Seq<char>,
}

impl View for WorkerRow {
    type V = WorkerRowView;

    open spec fn view(&self) -> WorkerRowView {
        WorkerRowView {
            id: self.id@,
            hostname: self.hostname@,
            ip_addr: self.ip_addr@,
            cores: self.cores,
            last_seen: self.last_seen,
            status: self.status@,
        }
    }
}

/// A package in the download queue.
#[derive(Debug, PartialEq, Eq)]
pub struct PackageRow {
    pub id: i64,
    pub package_name: String,
    pub version: String,
    pub worker_id: String,
    pub status: String,
    pub requested_at: i64,
}

pub struct PackageRowView {
    pub id: i64,
    pub package_name: Seq<char>,
    pub version: Seq<char>,
    pub worker_id: Seq<char>,
    pub status: Seq<char>,
    pub requested_at: i64,
}

impl View for PackageRow {
    type V = PackageRowView;

    open spec fn view(&self) -> PackageRowView {
        PackageRowView {
            id: self.id,
            package_name: self.package_name@,
            version: self.version@,
            worker_id: self.worker_id@,
            status: self.status@,
            requested_at: self.requested_at,
        }
    }
}

/// A package that joins the download queue: it is pending.
#[derive(Debug, PartialEq, Eq)]
pub struct NewPackage {
    pub package_name: String,
    pub version: String,
    pub worker_id: String,
    pub status: String,
    pub requested_at: i64,
}

pub struct NewPackageView {
    pub package_name: Seq<char>,
    pub version: Seq<char>,
    pub worker_id: Seq<char>,
    pub status: Seq<char>,
    pub requested_at: i64,
}

impl View for NewPackage {
    type V = NewPackageView;

    open spec fn view(&self) -> NewPackageView {
        NewPackageView {
            package_name: self.package_name@,
            version: self.version@,
            worker_id: self.worker_id@,
            status: self.status@,
            requested_at: self.requested_at,
        }
    }
}

/// A compile job, without its file.
#[derive(Debug, PartialEq, Eq)]
pub struct JobRow {
    pub id: i64,
    pub filename: String,
    pub submitted_by: String,
    pub status: String,
    pub submitted_at: i64,
    pub worker_id: Option<String>,
}

pub struct JobRowView {
    pub id: i64,
    pub filename: Seq<char>,
    pub submitted_by: Seq<char>,
    pub status: Seq<char>,
    pub submitted_at: i64,
    pub worker_id: Option<Seq<char>>,
}

impl View for JobRow {
    type V = JobRowView;

    open spec fn view(&self) -> JobRowView {
        JobRowView {
            id: self.id,
            filename: self.filename@,
            submitted_by: self.submitted_by@,
            status: self.status@,
            submitted_at: self.submitted_at,
            worker_id: opt_text(self.worker_id),
        }
    }
}

/// A compile job that joins the queue: it is queued, and no worker has it.
#[derive(Debug, PartialEq, Eq)]
pub struct NewJob {
    pub filename: String,
    pub content: Vec<u8>,
    pub submitted_by: String,
    pub status: String,
    pub submitted_at: i64,
}

pub struct NewJobView {
    pub filename: Seq<char>,
    pub content: Seq<u8>,
    pub submitted_by: Seq<char>,
    pub status: Seq<char>,
    pub submitted_at: i64,
}

impl View for NewJob {
    type V = NewJobView;

    open spec fn view(&self) -> NewJobView {
        NewJobView {
            filename: self.filename@,
            content: self.content@,
            submitted_by: self.submitted_by@,
            status: self.status@,
            submitted_at: self.submitted_at,
        }
    }
}

/// A worker that was let into the tunnel.
#[derive(Debug, PartialEq, Eq)]
pub struct PeerRow {
    pub id: i64,
    pub worker_name: String,
    pub public_key: String,
    pub assigned_ip: String,
    pub added_at: i64,
}

pub struct PeerRowView {
    pub id: i64,
    pub worker_name: Seq<char>,
    pub public_key: Seq<char>,
    pub assigned_ip: Seq<char>,
    pub added_at: i64,
}

impl View for PeerRow {
    type V = PeerRowView;

    open spec fn view(&self) -> PeerRowView {
        PeerRowView {
            id: self.id,
            worker_name: self.worker_name@,
            public_key: self.public_key@,
            assigned_ip: self.assigned_ip@,
            added_at: self.added_at,
        }
    }
}

/// What a worker reports of itself.
#[derive(Debug, PartialEq, Eq)]
pub struct WorkerHeartbeat {
    pub id: String,
    pub hostname: String,
    pub ip_addr: String,
    pub cores: u32,
}

pub struct WorkerHeartbeatView {
    pub id: Seq<char>,
    pub hostname: Seq<char>,
    pub ip_addr: Seq<char>,
    pub cores: u32,
}

impl View for WorkerHeartbeat {
    type V = WorkerHeartbeatView;

    open spec fn view(&self) -> WorkerHeartbeatView {
        WorkerHeartbeatView {
            id: self.id@,
            hostname: self.hostname@,
            ip_addr: self.ip_addr@,
            cores: self.cores,
        }
    }
}

/// A request for a package.
#[derive(Debug, PartialEq, Eq)]
pub struct QueueRequest {
    pub package_name: String,
    pub version: Option<String>,
    pub worker_id: String,
}

pub struct QueueRequestView {
    pub package_name: Seq<char>,
    pub version: Option<Seq<char>>,
    pub worker_id: Seq<char>,
}

impl View for QueueRequest {
    type V = QueueRequestView;

    open spec fn view(&self) -> QueueRequestView {
        QueueRequestView {
            package_name: self.package_name@,
            version: opt_text(self.version),
            worker_id: self.worker_id@,
        }
    }
}

/// A compile job as it is sent: the file is in base64.
#[derive(Debug, PartialEq, Eq)]
pub struct JobSubmit {
    pub filename: String,
    pub content: String,
    pub submitted_by: String,
}

pub struct JobSubmitView {
    pub filename: Seq<char>,
    pub content: Seq<char>,
    pub submitted_by: Seq<char>,
}

impl View for JobSubmit {
    type V = JobSubmitView;

    open spec fn view(&self) -> JobSubmitView {
        JobSubmitView {
            filename: self.filename@,
            content: self.content@,
            submitted_by: self.submitted_by@,
        }
    }
}

/// What the orchestrator answers to a worker that it let into the tunnel.
#[derive(Debug, PartialEq, Eq)]
pub struct WgRegisterResp {
    pub assigned_ip: String,
    pub server_public_key: String,
    pub server_endpoint: String,
    pub allowed_ips: String,
    pub keepalive: u32,
}

pub struct WgRegisterRespView {
    pub assigned_ip: Seq<char>,
    pub server_public_key: Seq<char>,
    pub server_endpoint: Seq<char>,
    pub allowed_ips: Seq<char>,
    pub keepalive: u32,
}

impl View for WgRegisterResp {
    type V = WgRegisterRespView;

    open spec fn view(&self) -> WgRegisterRespView {
        WgRegisterRespView {
            assigned_ip: self.assigned_ip@,
            server_public_key: self.server_public_key@,
            server_endpoint: self.server_endpoint@,
            allowed_ips: self.allowed_ips@,
            keepalive: self.keepalive,
        }
    }
}

/// What a registration changes in the list of peers.
#[derive(Debug, PartialEq, Eq)]
pub enum PeerChange {
    /// A new peer.
    Insert { worker_name: String, public_key: String, assigned_ip: String },
    /// The peer `id` has another name; its key and its address stay.
    Rename { id: i64, worker_name: String },
    /// Nothing: another peer has the name.
    NameTaken,
}

pub enum PeerChangeView {
    Insert { worker_name: Seq<char>, public_key: Seq<char>, assigned_ip: Seq<char> },
    Rename { id: i64, worker_name: Seq<char> },
    NameTaken,
}

impl View for PeerChange {
    type V = PeerChangeView;

    open spec fn view(&self) -> PeerChangeView {
        match self {
            PeerChange::Insert { worker_name, public_key, assigned_ip } => PeerChangeView::Insert {
                worker_name: worker_name@,
                public_key: public_key@,
                assigned_ip: assigned_ip@,
            },
            PeerChange::Rename { id, worker_name } => PeerChangeView::Rename {
                id: *id,
                worker_name: worker_name@,
            },
            PeerChange::NameTaken => PeerChangeView::NameTaken,
        }
    }
}

/// What a heartbeat changes in the list of workers.
#[derive(Debug, PartialEq, Eq)]
pub enum WorkerChange {
    /// A new worker.
    Insert(WorkerRow),
    /// The worker with this `id` is now as said.
    Update(WorkerRow),
}

pub enum WorkerChangeView {
    Insert(WorkerRowView),
    Update(WorkerRowView),
}

impl View for WorkerChange {
    type V = WorkerChangeView;

    open spec fn view(&self) -> WorkerChangeView {
        match self {
            WorkerChange::Insert(row) => WorkerChangeView::Insert(row@),
            WorkerChange::Update(row) => WorkerChangeView::Update(row@),
        }
    }
}

/// A request to be let into the tunnel.
#[derive(Debug, PartialEq, Eq)]
pub struct WgRegisterReq {
    pub name: String,
    pub public_key: String,
}

pub struct WgRegisterReqView {
    pub name: Seq<char>,
    pub public_key: Seq<char>,
}

impl View for WgRegisterReq {
    type V = WgRegisterReqView;

    open spec fn view(&self) -> WgRegisterReqView {
        WgRegisterReqView { name: self.name@, public_key: self.public_key@ }
    }
}

/// The view of an optional value.
pub open spec fn opt_view<T: View>(t: Option<T>) -> Option<T::V> {
    match t {
        Some(x) => Some(x@),
        None => None,
    }
}

/// All that the farm knows.
#[derive(Debug, PartialEq, Eq)]
pub struct Farm {
    pub workers: Vec<WorkerRow>,
    pub packages: Vec<PackageRow>,
    pub jobs: Vec<JobRow>,
    pub peers: Vec<PeerRow>,
}

pub struct FarmView {
    pub workers: Seq<WorkerRowView>,
    pub packages: Seq<PackageRowView>,
    pub jobs: Seq<JobRowView>,
    pub peers: Seq<PeerRowView>,
}

impl View for Farm {
    type V = FarmView;

    open spec fn view(&self) -> FarmView {
        FarmView {
            workers: views(self.workers@),
            packages: views(self.packages@),
            jobs: views(self.jobs@),
            peers: views(self.peers@),
        }
    }
}

/// What a worker says of a job that it built.
#[derive(Debug, PartialEq, Eq)]
pub struct JobReport {
    pub job_id: Option<i64>,
    pub status: String,
    pub worker_id: String,
}

pub struct JobReportView {
    pub job_id: Option<i64>,
    pub status: Seq<char>,
    pub worker_id: Seq<char>,
}

impl View for JobReport {
    type V = JobReportView;

    open spec fn view(&self) -> JobReportView {
        JobReportView {
            job_id: self.job_id,
            status: self.status@,
            worker_id: self.worker_id@,
        }
    }
}

/// What became of a job: its last status, who built it, and when that was known.
#[derive(Debug, PartialEq, Eq)]
pub struct JobOutcome {
    pub id: i64,
    pub status: String,
    pub worker_id: String,
    pub completed_at: i64,
}

pub struct JobOutcomeView {
    pub id: i64,
    pub status: Seq<char>,
    pub worker_id: Seq<char>,
    pub completed_at: i64,
}

impl View for JobOutcome {
    type V = JobOutcomeView;

    open spec fn view(&self) -> JobOutcomeView {
        JobOutcomeView {
            id: self.id,
            status: self.status@,
            worker_id: self.worker_id@,
            completed_at: self.completed_at,
        }
    }
}

/// Workers that get a status, and which.
#[derive(Debug, PartialEq, Eq)]
pub struct WorkerMarks {
    pub ids: Vec<String>,
    pub status: String,
}

pub struct WorkerMarksView {
    pub ids: Seq<Seq<char>>,
    pub status: Seq<char>,
}

impl View for WorkerMarks {
    type V = WorkerMarksView;

    open spec fn view(&self) -> WorkerMarksView {
        WorkerMarksView { ids: self.ids.deep_view(), status: self.status@ }
    }
}

/// What the view says of a worker is what the fields hold, each of its own.
pub proof fn law_worker_row_view(r: WorkerRow)
    ensures
        r@.id == r.id@,
        r@.hostname == r.hostname@,
        r@.ip_addr == r.ip_addr@,
        r@.cores == r.cores,
        r@.last_seen == r.last_seen,
        r@.status == r.status@,
{
}

/// What the view says of a package is what the fields hold, each of its own.
pub proof fn law_package_row_view(r: PackageRow)
    ensures
        r@.id == r.id,
        r@.package_name == r.package_name@,
        r@.version == r.version@,
        r@.worker_id == r.worker_id@,
        r@.status == r.status@,
        r@.requested_at == r.requested_at,
{
}

/// What the view says of a package that joins the queue is what the fields hold, each of its own.
pub proof fn law_new_package_view(r: NewPackage)
    ensures
        r@.package_name == r.package_name@,
        r@.version == r.version@,
        r@.worker_id == r.worker_id@,
        r@.status == r.status@,
        r@.requested_at == r.requested_at,
{
}

/// What the view says of a job is what the fields hold, each of its own.
pub proof fn law_job_row_view(r: JobRow)
    ensures
        r@.id == r.id,
        r@.filename == r.filename@,
        r@.submitted_by == r.submitted_by@,
        r@.status == r.status@,
        r@.submitted_at == r.submitted_at,
        r@.worker_id == opt_text(r.worker_id),
{
}

/// What the view says of a job that is submitted is what the fields hold, each of its own.
pub proof fn law_new_job_view(r: NewJob)
    ensures
        r@.filename == r.filename@,
        r@.content == r.content@,
        r@.submitted_by == r.submitted_by@,
        r@.status == r.status@,
        r@.submitted_at == r.submitted_at,
{
}

/// What the view says of a peer is what the fields hold, each of its own.
pub proof fn law_peer_row_view(r: PeerRow)
    ensures
        r@.id == r.id,
        r@.worker_name == r.worker_name@,
        r@.public_key == r.public_key@,
        r@.assigned_ip == r.assigned_ip@,
        r@.added_at == r.added_at,
{
}

/// What the view says of a heartbeat is what the fields hold, each of its own.
pub proof fn law_worker_heartbeat_view(r: WorkerHeartbeat)
    ensures
        r@.id == r.id@,
        r@.hostname == r.hostname@,
        r@.ip_addr == r.ip_addr@,
        r@.cores == r.cores,
{
}

/// What the view says of a request for a package is what the fields hold, each of its own.
pub proof fn law_queue_request_view(r: QueueRequest)
    ensures
        r@.package_name == r.package_name@,
        r@.version == opt_text(r.version),
        r@.worker_id == r.worker_id@,
{
}

/// What the view says of a submission is what the fields hold, each of its own.
pub proof fn law_job_submit_view(r: JobSubmit)
    ensures
        r@.filename == r.filename@,
        r@.content == r.content@,
        r@.submitted_by == r.submitted_by@,
{
}

/// What the view says of an answer to a registration is what the fields hold, each of its own.
pub proof fn law_wg_register_resp_view(r: WgRegisterResp)
    ensures
        r@.assigned_ip == r.assigned_ip@,
        r@.server_public_key == r.server_public_key@,
        r@.server_endpoint == r.server_endpoint@,
        r@.allowed_ips == r.allowed_ips@,
        r@.keepalive == r.keepalive,
{
}

/// What the view says of a registration is what the fields hold, each of its own.
pub proof fn law_wg_register_req_view(r: WgRegisterReq)
    ensures
        r@.name == r.name@,
        r@.public_key == r.public_key@,
{
}

/// What the view says of the farm is what the fields hold, each of its own.
pub proof fn law_farm_view(r: Farm)
    ensures
        r@.workers == views(r.workers@),
        r@.packages == views(r.packages@),
        r@.jobs == views(r.jobs@),
        r@.peers == views(r.peers@),
{
}

/// What the view says of a report is what the fields hold, each of its own.
pub proof fn law_job_report_view(r: JobReport)
    ensures
        r@.job_id == r.job_id,
        r@.status == r.status@,
        r@.worker_id == r.worker_id@,
{
}

/// What the view says of an outcome is what the fields hold, each of its own.
pub proof fn law_job_outcome_view(r: JobOutcome)
    ensures
        r@.id == r.id,
        r@.status == r.status@,
        r@.worker_id == r.worker_id@,
        r@.completed_at == r.completed_at,
{
}

/// What the view says of marks is what the fields hold, each of its own.
pub proof fn law_worker_marks_view(r: WorkerMarks)
    ensures
        r@.ids == r.ids.deep_view(),
        r@.status == r.status@,
{
}

/// The view of a list has the view of each item in its place; nothing stays nothing.
pub proof fn law_views<T: View>(s: Seq<T>, t: Option<T>, w: Option<String>, r: Result<String, String>)
    ensures
        views(s).len() == s.len(),
        forall|i: int| 0 <= i < s.len() ==> #[trigger] views(s)[i] == s[i]@,
        t matches Some(x) ==> opt_view(t) == Some(x@),
        t is None ==> opt_view(t) is None,
        w matches Some(x) ==> opt_text(w) == Some(x@),
        w is None ==> opt_text(w) is None,
        r matches Ok(x) ==> result_text(r) == Ok::<Seq<char>, Seq<char>>(x@),
        r matches Err(x) ==> result_text(r) == Err::<Seq<char>, Seq<char>>(x@),
{
}

/// A change is viewed as the same change, of the same row.
pub proof fn law_change_views(row: WorkerRow, name: String, key: String, ip: String, id: i64)
    ensures
        WorkerChange::Insert(row)@ == WorkerChangeView::Insert(row@),
        WorkerChange::Update(row)@ == WorkerChangeView::Update(row@),
        (PeerChange::Insert { worker_name: name, public_key: key, assigned_ip: ip })@ == (
        PeerChangeView::Insert { worker_name: name@, public_key: key@, assigned_ip: ip@ }),
        (PeerChange::Rename { id, worker_name: name })@ == (PeerChangeView::Rename {
            id,
            worker_name: name@,
        }),
{
}

} // verus!
