//! What the library asks of the world around it: effects to have, and questions to answer.
//!
//! A procedure that has to act between its decisions is a function from its stage and a reply to
//! the next stage and a step. Whoever runs it has the step's effects, in order, and then answers
//! the step's question with the next reply; a step that asks nothing is the last.

use vstd::prelude::*;

use crate::records;
use crate::records::{
    Farm, FarmView, JobOutcome, JobOutcomeView, JobReport, JobReportView, JobRow, JobRowView,
    JobSubmit, JobSubmitView, NewJob, NewJobView, NewPackage, NewPackageView, PackageRow,
    PackageRowView, PeerChange, PeerChangeView, PeerRow, PeerRowView, QueueRequest,
    QueueRequestView, WgRegisterReq, WgRegisterReqView, WgRegisterResp, WgRegisterRespView,
    WorkerChange, WorkerChangeView, WorkerHeartbeat, WorkerHeartbeatView, WorkerRow, WorkerRowView,
};
use crate::shell::{ShellCommand, ShellCommandView};

verus! {

/// A command: the program and its arguments.
#[derive(Debug, PartialEq, Eq)]
pub struct Cmd {
    pub words: Vec<String>,
}

impl View for Cmd {
    type V = Seq<Seq<char>>;

    open spec fn view(&self) -> Seq<Seq<char>> {
        self.words.deep_view()
    }
}

/// A command without arguments.
pub open spec fn command(program: Seq<char>) -> Seq<Seq<char>> {
    Seq::empty().push(program)
}

impl Cmd {
    /// A command without arguments.
    pub fn new(program: &str) -> (r: Cmd)
        ensures
            r@ == command(program@),
    {
        let mut words: Vec<String> = Vec::new();
        words.push(program.to_string());
        let r = Cmd { words };
        assert(r@ =~= command(program@));
        r
    }

    /// The command with one argument more.
    pub fn arg(self, word: &str) -> (r: Cmd)
        ensures
            r@ == self@.push(word@),
    {
        let mut words = self.words;
        words.push(word.to_string());
        let r = Cmd { words };
        assert(r@ =~= self@.push(word@));
        r
    }
}

/// What a command gave: whether it succeeded, and what it printed.
#[derive(Debug, PartialEq, Eq)]
pub struct Output {
    pub success: bool,
    pub stdout: Vec<u8>,
}

pub struct OutputView {
    pub success: bool,
    pub stdout: Seq<u8>,
}

impl View for Output {
    type V = OutputView;

    open spec fn view(&self) -> OutputView {
        OutputView { success: self.success, stdout: self.stdout@ }
    }
}

/// What a command gave that prints text: whether it succeeded, and what it printed, where that was
/// text at all.
#[derive(Debug, PartialEq, Eq)]
pub struct Printed {
    pub success: bool,
    pub text: Option<String>,
}

pub struct PrintedView {
    pub success: bool,
    pub text: Option<Seq<char>>,
}

impl View for Printed {
    type V = PrintedView;

    open spec fn view(&self) -> PrintedView {
        PrintedView { success: self.success, text: records::opt_text(self.text) }
    }
}

/// What a machine says of itself: its host name file, the address that it reaches the network
/// from, and its processor list, each where it could be had.
#[derive(Debug, PartialEq, Eq)]
pub struct MachineInfo {
    pub hostname: Option<String>,
    pub address: Option<String>,
    pub cpuinfo: Option<String>,
}

pub struct MachineInfoView {
    pub hostname: Option<Seq<char>>,
    pub address: Option<Seq<char>>,
    pub cpuinfo: Option<Seq<char>>,
}

impl View for MachineInfo {
    type V = MachineInfoView;

    open spec fn view(&self) -> MachineInfoView {
        MachineInfoView {
            hostname: records::opt_text(self.hostname),
            address: records::opt_text(self.address),
            cpuinfo: records::opt_text(self.cpuinfo),
        }
    }
}

/// Something to do, whose outcome does not matter.
#[derive(Debug, PartialEq, Eq)]
pub enum Effect {
    /// Writes a text to standard output.
    Print(String),
    /// Writes a text to standard error.
    Report(String),
    /// Ends the program as a failed assertion does, with a message.
    Abort(String),
    /// Ends the program with a status.
    Exit(i32),
    /// Creates a directory and those above it.
    MakeDir(String),
    /// Writes a text to the file named first.
    WriteText(String, String),
    /// Writes bytes to the file named first.
    WriteBytes(String, Vec<u8>),
    /// Removes a file.
    Remove(String),
    /// Runs a command, whatever comes of it.
    Exec(Cmd),
    /// Runs the first command, or the second where the first cannot be started.
    ExecOr(Cmd, Cmd),
    /// Waits for some seconds.
    Sleep(u64),
    /// Adds a package to the download queue.
    AddPackage(NewPackage),
    /// Stores a change of the workers.
    SaveWorker(WorkerChange),
    /// Stores what became of a job.
    FinishJob(JobOutcome),
    /// Gives a package another status.
    MarkPackage(i64, String),
    /// Gives a package its last status, and the time of it.
    CompletePackage(i64, String, i64),
    /// Notes how a gateway sync has ended.
    FinishSync(i64, String),
    /// Notes that the host's shell was opened: under which name, when, and in which words.
    LogAccess(String, i64, String),
}

pub enum EffectView {
    Print(Seq<char>),
    Report(Seq<char>),
    Abort(Seq<char>),
    Exit(i32),
    MakeDir(Seq<char>),
    WriteText(Seq<char>, Seq<char>),
    WriteBytes(Seq<char>, Seq<u8>),
    Remove(Seq<char>),
    Exec(Seq<Seq<char>>),
    ExecOr(Seq<Seq<char>>, Seq<Seq<char>>),
    Sleep(u64),
    AddPackage(NewPackageView),
    SaveWorker(WorkerChangeView),
    FinishJob(JobOutcomeView),
    MarkPackage(i64, Seq<char>),
    CompletePackage(i64, Seq<char>, i64),
    FinishSync(i64, Seq<char>),
    LogAccess(Seq<char>, i64, Seq<char>),
}

impl View for Effect {
    type V = EffectView;

    open spec fn view(&self) -> EffectView {
        match self {
            Effect::Print(a) => EffectView::Print(a@),
            Effect::Report(a) => EffectView::Report(a@),
            Effect::Abort(a) => EffectView::Abort(a@),
            Effect::Exit(a) => EffectView::Exit(*a),
            Effect::MakeDir(a) => EffectView::MakeDir(a@),
            Effect::WriteText(a, b) => EffectView::WriteText(a@, b@),
            Effect::WriteBytes(a, b) => EffectView::WriteBytes(a@, b@),
            Effect::Remove(a) => EffectView::Remove(a@),
            Effect::Exec(a) => EffectView::Exec(a@),
            Effect::ExecOr(a, b) => EffectView::ExecOr(a@, b@),
            Effect::Sleep(a) => EffectView::Sleep(*a),
            Effect::AddPackage(a) => EffectView::AddPackage(a@),
            Effect::SaveWorker(a) => EffectView::SaveWorker(a@),
            Effect::FinishJob(a) => EffectView::FinishJob(a@),
            Effect::MarkPackage(a, b) => EffectView::MarkPackage(*a, b@),
            Effect::CompletePackage(a, b, c) => EffectView::CompletePackage(*a, b@, *c),
            Effect::FinishSync(a, b) => EffectView::FinishSync(*a, b@),
            Effect::LogAccess(a, b, c) => EffectView::LogAccess(a@, *b, c@),
        }
    }
}

/// Something to find out, or to do and tell the outcome of.
#[derive(Debug, PartialEq, Eq)]
pub enum Query {
    /// Whether there is a file of that name: `Reply::Found`.
    Exists(String),
    /// What a file holds, as text: `Reply::Text`.
    ReadText(String),
    /// What a file holds: `Reply::Bytes`.
    ReadBytes(String),
    /// Writes a text to the file named first: `Reply::Written`.
    Write(String, String),
    /// Runs a command: `Reply::Status`.
    Run(Cmd),
    /// Runs a command for what it prints: `Reply::Output`.
    Capture(Cmd),
    /// Runs a command on the file named: `Reply::Output`.
    CaptureFrom(Cmd, String),
    /// Runs a command for what it prints, as text: `Reply::Printed`.
    CaptureText(Cmd),
    /// Asks the address named first for a path: `Reply::Http`.
    Get(String, String),
    /// Sends to the address named first, under a path, a body: `Reply::Http`.
    Post(String, String, String),
    /// The names in a directory: `Reply::Names`.
    List(String),
    /// Renames the file named first: `Reply::Renamed`.
    Rename(String, String),
    /// A variable of the environment: `Reply::Text`.
    Env(String),
    /// What the machine says of itself: `Reply::Machine`.
    Machine,
    /// The worker's own name for itself: `Reply::Text`.
    WorkerId,
    /// The time: `Reply::Time`.
    Clock,
    /// The peers, in the order they were added to the list: `Reply::Peers`.
    Peers,
    /// The download queue, in the order of its numbers: `Reply::Packages`.
    Packages,
    /// The workers: `Reply::Workers`.
    Workers,
    /// The jobs, in the order of their numbers: `Reply::Jobs`.
    Jobs,
    /// All that the farm knows: `Reply::Farm`.
    Farm,
    /// The request's body, as a request for a package: `Reply::QueueRequest`.
    QueueRequest,
    /// The request's body, as a submission: `Reply::JobSubmit`.
    JobSubmit,
    /// The request's body, as a report on a job: `Reply::JobReport`.
    JobReport,
    /// The request's body, as a heartbeat: `Reply::Heartbeat`.
    Heartbeat,
    /// Who the request's body says asks for a sync: `Reply::Text`.
    SyncRequest,
    /// The request's body, as a request to be let into the tunnel: `Reply::RegisterRequest`.
    RegisterRequest,
    /// Stores a job: `Reply::Id`.
    AddJob(NewJob),
    /// Marks the workers that `workers::expire_stale_workers` names, as it says: `Reply::Finished`.
    ExpireWorkers,
    /// Asks for a line of input: `Reply::Text`.
    Line,
    /// Carries out a command of the shell: `Reply::Finished`.
    Command(ShellCommand),
    /// Stores a change of the peers, made at that time: `Reply::Written`.
    SavePeer(PeerChange, i64),
    /// Notes that a gateway sync was asked for, by whom, when, and how it stands: `Reply::Id`.
    OpenSync(String, i64, String),
    /// Reads an answer to a registration: `Reply::Registration`.
    Registration(String),
    /// Registers the worker of that name and key: `Reply::Registered`.
    Register(String, String),
    /// Works off the download queue: `Reply::Finished`.
    ProcessQueue,
    /// Tells workers of packages: `Reply::Finished`.
    PushPackages,
    /// Syncs the gateway for someone: `Reply::Finished`.
    SyncGateway(String),
}

pub enum QueryView {
    Exists(Seq<char>),
    ReadText(Seq<char>),
    ReadBytes(Seq<char>),
    Write(Seq<char>, Seq<char>),
    Run(Seq<Seq<char>>),
    Capture(Seq<Seq<char>>),
    CaptureFrom(Seq<Seq<char>>, Seq<char>),
    CaptureText(Seq<Seq<char>>),
    Get(Seq<char>, Seq<char>),
    Post(Seq<char>, Seq<char>, Seq<char>),
    List(Seq<char>),
    Rename(Seq<char>, Seq<char>),
    Env(Seq<char>),
    Machine,
    WorkerId,
    Clock,
    Peers,
    Packages,
    Workers,
    Jobs,
    Farm,
    QueueRequest,
    JobSubmit,
    JobReport,
    Heartbeat,
    SyncRequest,
    RegisterRequest,
    AddJob(NewJobView),
    ExpireWorkers,
    Line,
    Command(ShellCommandView),
    SavePeer(PeerChangeView, i64),
    OpenSync(Seq<char>, i64, Seq<char>),
    Registration(Seq<char>),
    Register(Seq<char>, Seq<char>),
    ProcessQueue,
    PushPackages,
    SyncGateway(Seq<char>),
}

impl View for Query {
    type V = QueryView;

    open spec fn view(&self) -> QueryView {
        match self {
            Query::Exists(a) => QueryView::Exists(a@),
            Query::ReadText(a) => QueryView::ReadText(a@),
            Query::ReadBytes(a) => QueryView::ReadBytes(a@),
            Query::Write(a, b) => QueryView::Write(a@, b@),
            Query::Run(a) => QueryView::Run(a@),
            Query::Capture(a) => QueryView::Capture(a@),
            Query::CaptureFrom(a, b) => QueryView::CaptureFrom(a@, b@),
            Query::CaptureText(a) => QueryView::CaptureText(a@),
            Query::Get(a, b) => QueryView::Get(a@, b@),
            Query::Post(a, b, c) => QueryView::Post(a@, b@, c@),
            Query::List(a) => QueryView::List(a@),
            Query::Rename(a, b) => QueryView::Rename(a@, b@),
            Query::Env(a) => QueryView::Env(a@),
            Query::Machine => QueryView::Machine,
            Query::WorkerId => QueryView::WorkerId,
            Query::Clock => QueryView::Clock,
            Query::Peers => QueryView::Peers,
            Query::Packages => QueryView::Packages,
            Query::Workers => QueryView::Workers,
            Query::Jobs => QueryView::Jobs,
            Query::Farm => QueryView::Farm,
            Query::QueueRequest => QueryView::QueueRequest,
            Query::JobSubmit => QueryView::JobSubmit,
            Query::JobReport => QueryView::JobReport,
            Query::Heartbeat => QueryView::Heartbeat,
            Query::SyncRequest => QueryView::SyncRequest,
            Query::RegisterRequest => QueryView::RegisterRequest,
            Query::AddJob(a) => QueryView::AddJob(a@),
            Query::ExpireWorkers => QueryView::ExpireWorkers,
            Query::Line => QueryView::Line,
            Query::Command(a) => QueryView::Command(a@),
            Query::SavePeer(a, b) => QueryView::SavePeer(a@, *b),
            Query::OpenSync(a, b, c) => QueryView::OpenSync(a@, *b, c@),
            Query::Registration(a) => QueryView::Registration(a@),
            Query::Register(a, b) => QueryView::Register(a@, b@),
            Query::ProcessQueue => QueryView::ProcessQueue,
            Query::PushPackages => QueryView::PushPackages,
            Query::SyncGateway(a) => QueryView::SyncGateway(a@),
        }
    }
}

/// The answer to a query.
#[derive(Debug, PartialEq, Eq)]
pub enum Reply {
    /// There was no query yet.
    Begin,
    Found(bool),
    Text(Option<String>),
    Bytes(Result<Vec<u8>, String>),
    Written(Result<(), String>),
    /// Whether a command succeeded; none where it could not be started.
    Status(Option<bool>),
    /// What a command gave; none where it could not be started.
    Output(Option<Output>),
    /// What a command gave that prints text; none where it could not be started.
    Printed(Option<Printed>),
    Http(Result<String, String>),
    Names(Option<Vec<String>>),
    Renamed(bool),
    Time(i64),
    Machine(MachineInfo),
    Peers(Vec<PeerRow>),
    Packages(Vec<PackageRow>),
    Workers(Vec<WorkerRow>),
    Jobs(Vec<JobRow>),
    Farm(Farm),
    QueueRequest(Option<QueueRequest>),
    JobSubmit(Option<JobSubmit>),
    JobReport(Option<JobReport>),
    Heartbeat(Option<WorkerHeartbeat>),
    RegisterRequest(Option<WgRegisterReq>),
    Id(i64),
    Registration(Option<WgRegisterResp>),
    Registered(Result<String, String>),
    Finished,
}

pub enum ReplyView {
    Begin,
    Found(bool),
    Text(Option<Seq<char>>),
    Bytes(Result<Seq<u8>, Seq<char>>),
    Written(Result<(), Seq<char>>),
    Status(Option<bool>),
    Output(Option<OutputView>),
    Printed(Option<PrintedView>),
    Http(Result<Seq<char>, Seq<char>>),
    Names(Option<Seq<Seq<char>>>),
    Renamed(bool),
    Time(i64),
    Machine(MachineInfoView),
    Peers(Seq<PeerRowView>),
    Packages(Seq<PackageRowView>),
    Workers(Seq<WorkerRowView>),
    Jobs(Seq<JobRowView>),
    Farm(FarmView),
    QueueRequest(Option<QueueRequestView>),
    JobSubmit(Option<JobSubmitView>),
    JobReport(Option<JobReportView>),
    Heartbeat(Option<WorkerHeartbeatView>),
    RegisterRequest(Option<WgRegisterReqView>),
    Id(i64),
    Registration(Option<WgRegisterRespView>),
    Registered(Result<Seq<char>, Seq<char>>),
    Finished,
}

impl View for Reply {
    type V = ReplyView;

    open spec fn view(&self) -> ReplyView {
        match self {
            Reply::Begin => ReplyView::Begin,
            Reply::Found(a) => ReplyView::Found(*a),
            Reply::Text(a) => ReplyView::Text(records::opt_text(*a)),
            Reply::Bytes(a) => ReplyView::Bytes(
                match a {
                    Ok(b) => Ok(b@),
                    Err(e) => Err(e@),
                },
            ),
            Reply::Written(a) => ReplyView::Written(
                match a {
                    Ok(u) => Ok(*u),
                    Err(e) => Err(e@),
                },
            ),
            Reply::Status(a) => ReplyView::Status(*a),
            Reply::Output(a) => ReplyView::Output(records::opt_view(*a)),
            Reply::Printed(a) => ReplyView::Printed(records::opt_view(*a)),
            Reply::Http(a) => ReplyView::Http(records::result_text(*a)),
            Reply::Names(a) => ReplyView::Names(
                match a {
                    Some(n) => Some(n.deep_view()),
                    None => None,
                },
            ),
            Reply::Renamed(a) => ReplyView::Renamed(*a),
            Reply::Time(a) => ReplyView::Time(*a),
            Reply::Machine(a) => ReplyView::Machine(a@),
            Reply::Peers(a) => ReplyView::Peers(records::views(a@)),
            Reply::Packages(a) => ReplyView::Packages(records::views(a@)),
            Reply::Workers(a) => ReplyView::Workers(records::views(a@)),
            Reply::Jobs(a) => ReplyView::Jobs(records::views(a@)),
            Reply::Farm(a) => ReplyView::Farm(a@),
            Reply::QueueRequest(a) => ReplyView::QueueRequest(records::opt_view(*a)),
            Reply::JobSubmit(a) => ReplyView::JobSubmit(records::opt_view(*a)),
            Reply::JobReport(a) => ReplyView::JobReport(records::opt_view(*a)),
            Reply::Heartbeat(a) => ReplyView::Heartbeat(records::opt_view(*a)),
            Reply::RegisterRequest(a) => ReplyView::RegisterRequest(records::opt_view(*a)),
            Reply::Id(a) => ReplyView::Id(*a),
            Reply::Registration(a) => ReplyView::Registration(records::opt_view(*a)),
            Reply::Registered(a) => ReplyView::Registered(records::result_text(*a)),
            Reply::Finished => ReplyView::Finished,
        }
    }
}

/// Whether `r` is an answer to `q`.
pub open spec fn fits(q: QueryView, r: ReplyView) -> bool {
    match q {
        QueryView::Exists(_) => r is Found,
        QueryView::ReadText(_) => r is Text,
        QueryView::ReadBytes(_) => r is Bytes,
        QueryView::Write(_, _) => r is Written,
        QueryView::Run(_) => r is Status,
        QueryView::Capture(_) => r is Output,
        QueryView::CaptureFrom(_, _) => r is Output,
        QueryView::CaptureText(_) => r is Printed,
        QueryView::Get(_, _) => r is Http,
        QueryView::Post(_, _, _) => r is Http,
        QueryView::List(_) => r is Names,
        QueryView::Rename(_, _) => r is Renamed,
        QueryView::Env(_) => r is Text,
        QueryView::Machine => r is Machine,
        QueryView::WorkerId => r is Text,
        QueryView::Clock => r is Time,
        QueryView::Peers => r is Peers,
        QueryView::Packages => r is Packages,
        QueryView::Workers => r is Workers,
        QueryView::Jobs => r is Jobs,
        QueryView::Farm => r is Farm,
        QueryView::QueueRequest => r is QueueRequest,
        QueryView::JobSubmit => r is JobSubmit,
        QueryView::JobReport => r is JobReport,
        QueryView::Heartbeat => r is Heartbeat,
        QueryView::SyncRequest => r is Text,
        QueryView::RegisterRequest => r is RegisterRequest,
        QueryView::AddJob(_) => r is Id,
        QueryView::ExpireWorkers => r is Finished,
        QueryView::Line => r is Text,
        QueryView::Command(_) => r is Finished,
        QueryView::SavePeer(_, _) => r is Written,
        QueryView::OpenSync(_, _, _) => r is Id,
        QueryView::Registration(_) => r is Registration,
        QueryView::Register(_, _) => r is Registered,
        QueryView::ProcessQueue => r is Finished,
        QueryView::PushPackages => r is Finished,
        QueryView::SyncGateway(_) => r is Finished,
    }
}

/// What a procedure wants done next.
#[derive(Debug, PartialEq, Eq)]
pub struct Step {
    pub effects: Vec<Effect>,
    pub ask: Option<Query>,
}

pub struct StepView {
    pub effects: Seq<EffectView>,
    pub ask: Option<QueryView>,
}

impl View for Step {
    type V = StepView;

    open spec fn view(&self) -> StepView {
        StepView {
            effects: records::views(self.effects@),
            ask: records::opt_view(self.ask),
        }
    }
}

impl StepView {
    /// Nothing to do, and nothing to ask.
    pub open spec fn stop() -> StepView {
        StepView { effects: Seq::empty(), ask: None }
    }

    /// The step with one effect more.
    pub open spec fn with(self, e: EffectView) -> StepView {
        StepView { effects: self.effects.push(e), ask: self.ask }
    }

    /// The step with a question at its end.
    pub open spec fn then_ask(self, q: QueryView) -> StepView {
        StepView { effects: self.effects, ask: Some(q) }
    }

    pub open spec fn print(self, t: Seq<char>) -> StepView {
        self.with(EffectView::Print(t))
    }

    pub open spec fn report(self, t: Seq<char>) -> StepView {
        self.with(EffectView::Report(t))
    }

    pub open spec fn exec(self, c: Seq<Seq<char>>) -> StepView {
        self.with(EffectView::Exec(c))
    }
}

impl Step {
    /// Nothing to do, and nothing to ask.
    pub fn stop() -> (r: Step)
        ensures
            r@ == StepView::stop(),
    {
        let r = Step { effects: Vec::new(), ask: None };
        assert(r@.effects =~= Seq::<EffectView>::empty());
        r
    }

    /// The step with one effect more.
    pub fn with(self, e: Effect) -> (r: Step)
        ensures
            r@ == self@.with(e@),
    {
        let mut effects = self.effects;
        effects.push(e);
        let r = Step { effects, ask: self.ask };
        assert(r@.effects =~= self@.effects.push(e@));
        r
    }

    /// The step with a question at its end.
    pub fn then_ask(self, q: Query) -> (r: Step)
        ensures
            r@ == self@.then_ask(q@),
    {
        Step { effects: self.effects, ask: Some(q) }
    }

    /// The step with a text to write to standard output.
    pub fn print(self, t: String) -> (r: Step)
        ensures
            r@ == self@.print(t@),
    {
        self.with(Effect::Print(t))
    }

    /// The step with a text to write to standard error.
    pub fn report(self, t: String) -> (r: Step)
        ensures
            r@ == self@.report(t@),
    {
        self.with(Effect::Report(t))
    }

    /// The step with a command to run.
    pub fn exec(self, c: Cmd) -> (r: Step)
        ensures
            r@ == self@.exec(c@),
    {
        self.with(Effect::Exec(c))
    }
}

/// An effect is viewed as the same effect, on the same things in the same places.
pub proof fn law_effect_views(
    a: String,
    z: i32,
    b: String,
    bytes: Vec<u8>,
    p: Cmd,
    q: Cmd,
    k: u64,
    new_package: NewPackage,
    worker_change: WorkerChange,
    job_outcome: JobOutcome,
    n: i64,
    m: i64,
)
    ensures
        Effect::Print(a)@ == EffectView::Print(a@),
        Effect::Report(a)@ == EffectView::Report(a@),
        Effect::Abort(a)@ == EffectView::Abort(a@),
        Effect::Exit(z)@ == EffectView::Exit(z),
        Effect::MakeDir(a)@ == EffectView::MakeDir(a@),
        Effect::WriteText(a, b)@ == EffectView::WriteText(a@, b@),
        Effect::WriteBytes(a, bytes)@ == EffectView::WriteBytes(a@, bytes@),
        Effect::Remove(a)@ == EffectView::Remove(a@),
        Effect::Exec(p)@ == EffectView::Exec(p@),
        Effect::ExecOr(p, q)@ == EffectView::ExecOr(p@, q@),
        Effect::Sleep(k)@ == EffectView::Sleep(k),
        Effect::AddPackage(new_package)@ == EffectView::AddPackage(new_package@),
        Effect::SaveWorker(worker_change)@ == EffectView::SaveWorker(worker_change@),
        Effect::FinishJob(job_outcome)@ == EffectView::FinishJob(job_outcome@),
        Effect::MarkPackage(n, a)@ == EffectView::MarkPackage(n, a@),
        Effect::CompletePackage(n, a, m)@ == EffectView::CompletePackage(n, a@, m),
        Effect::FinishSync(n, a)@ == EffectView::FinishSync(n, a@),
        Effect::LogAccess(a, n, b)@ == EffectView::LogAccess(a@, n, b@),
{
}

/// A question is viewed as the same question, about the same things in the same places.
pub proof fn law_query_views(
    a: String,
    b: String,
    p: Cmd,
    c: String,
    new_job: NewJob,
    shell_command: ShellCommand,
    peer_change: PeerChange,
    n: i64,
)
    ensures
        Query::Exists(a)@ == QueryView::Exists(a@),
        Query::ReadText(a)@ == QueryView::ReadText(a@),
        Query::ReadBytes(a)@ == QueryView::ReadBytes(a@),
        Query::Write(a, b)@ == QueryView::Write(a@, b@),
        Query::Run(p)@ == QueryView::Run(p@),
        Query::Capture(p)@ == QueryView::Capture(p@),
        Query::CaptureFrom(p, a)@ == QueryView::CaptureFrom(p@, a@),
        Query::CaptureText(p)@ == QueryView::CaptureText(p@),
        Query::Get(a, b)@ == QueryView::Get(a@, b@),
        Query::Post(a, b, c)@ == QueryView::Post(a@, b@, c@),
        Query::List(a)@ == QueryView::List(a@),
        Query::Rename(a, b)@ == QueryView::Rename(a@, b@),
        Query::Env(a)@ == QueryView::Env(a@),
        Query::Machine@ == QueryView::Machine,
        Query::WorkerId@ == QueryView::WorkerId,
        Query::Clock@ == QueryView::Clock,
        Query::Peers@ == QueryView::Peers,
        Query::Packages@ == QueryView::Packages,
        Query::Workers@ == QueryView::Workers,
        Query::Jobs@ == QueryView::Jobs,
        Query::Farm@ == QueryView::Farm,
        Query::QueueRequest@ == QueryView::QueueRequest,
        Query::JobSubmit@ == QueryView::JobSubmit,
        Query::JobReport@ == QueryView::JobReport,
        Query::Heartbeat@ == QueryView::Heartbeat,
        Query::SyncRequest@ == QueryView::SyncRequest,
        Query::RegisterRequest@ == QueryView::RegisterRequest,
        Query::AddJob(new_job)@ == QueryView::AddJob(new_job@),
        Query::ExpireWorkers@ == QueryView::ExpireWorkers,
        Query::Line@ == QueryView::Line,
        Query::Command(shell_command)@ == QueryView::Command(shell_command@),
        Query::SavePeer(peer_change, n)@ == QueryView::SavePeer(peer_change@, n),
        Query::OpenSync(a, n, b)@ == QueryView::OpenSync(a@, n, b@),
        Query::Registration(a)@ == QueryView::Registration(a@),
        Query::Register(a, b)@ == QueryView::Register(a@, b@),
        Query::ProcessQueue@ == QueryView::ProcessQueue,
        Query::PushPackages@ == QueryView::PushPackages,
        Query::SyncGateway(a)@ == QueryView::SyncGateway(a@),
{
}

/// What a step has done so far stays, in its order, whatever is added to it, and it asks for what
/// it was told last.
pub proof fn law_steps(s: StepView, e: EffectView, q: QueryView, t: Seq<char>, c: Seq<Seq<char>>)
    ensures
        StepView::stop().effects.len() == 0,
        StepView::stop().ask is None,
        s.with(e).effects == s.effects.push(e),
        s.with(e).ask == s.ask,
        s.then_ask(q).effects == s.effects,
        s.then_ask(q).ask == Some(q),
        s.print(t).effects == s.effects.push(EffectView::Print(t)),
        s.print(t).ask == s.ask,
        s.report(t).effects == s.effects.push(EffectView::Report(t)),
        s.report(t).ask == s.ask,
        s.exec(c).effects == s.effects.push(EffectView::Exec(c)),
        s.exec(c).ask == s.ask,
        command(t).len() == 1,
        command(t)[0] == t,
{
}

/// What comes back is viewed as what came back.
pub proof fn law_reply_views(
    found: bool,
    s: String,
    e: String,
    bytes: Vec<u8>,
    status: Option<bool>,
    t: i64,
    names: Vec<String>,
    out: Output,
    printed: Printed,
    m: MachineInfo,
)
    ensures
        Reply::Found(found)@ == ReplyView::Found(found),
        Reply::Text(Some(s))@ == ReplyView::Text(Some(s@)),
        Reply::Text(None)@ == ReplyView::Text(None),
        Reply::Bytes(Ok(bytes))@ == ReplyView::Bytes(Ok(bytes@)),
        Reply::Bytes(Err(e))@ == ReplyView::Bytes(Err(e@)),
        Reply::Written(Ok(()))@ == ReplyView::Written(Ok(())),
        Reply::Written(Err(e))@ == ReplyView::Written(Err(e@)),
        Reply::Status(status)@ == ReplyView::Status(status),
        Reply::Http(Ok(s))@ == ReplyView::Http(Ok(s@)),
        Reply::Http(Err(e))@ == ReplyView::Http(Err(e@)),
        Reply::Names(Some(names))@ == ReplyView::Names(Some(names.deep_view())),
        Reply::Names(None)@ == ReplyView::Names(None),
        Reply::Renamed(found)@ == ReplyView::Renamed(found),
        Reply::Time(t)@ == ReplyView::Time(t),
        Reply::Id(t)@ == ReplyView::Id(t),
        Reply::Registered(Ok(s))@ == ReplyView::Registered(Ok(s@)),
        Reply::Registered(Err(e))@ == ReplyView::Registered(Err(e@)),
        Reply::Output(Some(out))@ == ReplyView::Output(Some(out@)),
        Reply::Printed(Some(printed))@ == ReplyView::Printed(Some(printed@)),
        Reply::Machine(m)@ == ReplyView::Machine(m@),
        out@.success == out.success,
        out@.stdout == out.stdout@,
        printed@.success == printed.success,
        printed@.text == records::opt_text(printed.text),
        m@.hostname == records::opt_text(m.hostname),
        m@.address == records::opt_text(m.address),
        m@.cpuinfo == records::opt_text(m.cpuinfo),
{
}

} // verus!
