//! Compile jobs: how they are submitted, stored, and shown.

use vstd::prelude::*;

use crate::base64;
use crate::base64::{base64_decode, base64_encode};
use crate::json_text;
use crate::json_text::json_array;
use crate::order;
use crate::order::order_by_number;
use crate::packages::{LISTED, NFS_PKG_PATH};
use crate::records;
use crate::records::{
    JobOutcome, JobOutcomeView, JobReport, JobReportView, JobRow, JobRowView, JobSubmit, JobSubmitView,
    NewJob, NewJobView,
};
use crate::text;
use crate::text::{contains, head, integer, parse_number, same};
use crate::work::{Effect, EffectView, Step, StepView};

verus! {

/// The status of a job that nobody has built.
pub const QUEUED: &'static str = "queued";

/// The job that a submission makes.
pub open spec fn job_of(req: JobSubmitView, now: i64) -> NewJobView {
    NewJobView {
        filename: req.filename,
        content: base64::decoded(req.content),
        submitted_by: req.submitted_by,
        status: QUEUED@,
        submitted_at: now,
    }
}

/// Takes a submission: the job to store, or the HTTP status and the body that refuse it. `None`
/// stands for a submission that could not be read.
pub fn api_job_submit(req: Option<JobSubmit>, now: i64) -> (r: Result<NewJob, (i32, String)>)
    requires
        records::opt_view(req) matches Some(j) ==> base64::decodable(j.content),
    ensures
        r is Ok <==> req is Some,
        r matches Ok(job) ==> job@ == job_of(records::opt_view(req)->0, now),
        r matches Err(e) ==> (e.0, e.1@) == (400i32, "{\"error\":\"bad request\"}"@),
{
    match req {
        None => Err((400, "{\"error\":\"bad request\"}".to_string())),
        Some(j) => {
            let content = base64_decode(j.content.as_str());
            Ok(
                NewJob {
                    filename: j.filename,
                    content,
                    submitted_by: j.submitted_by,
                    status: QUEUED.to_string(),
                    submitted_at: now,
                },
            )
        },
    }
}

/// Where the files of jobs lie for the workers.
pub open spec fn jobs_dir() -> Seq<char> {
    NFS_PKG_PATH@ + "/jobs"@
}

/// Where the file of the job `id` lies.
pub open spec fn job_path(id: i64, filename: Seq<char>) -> Seq<char> {
    jobs_dir() + "/"@ + text::int_text(id as int) + "-"@ + filename
}

/// What is done once a job is stored under the number `id`.
pub open spec fn handed_out(job: NewJobView, id: i64) -> StepView {
    StepView::stop().with(EffectView::MakeDir(jobs_dir())).with(
        EffectView::WriteBytes(job_path(id, job.filename), job.content),
    )
}

/// Hands a job that was stored under the number `id` out to the workers, and answers its submission.
pub fn job_stored(job: NewJob, id: i64) -> (r: (Step, i32, String))
    ensures
        (r.0@, r.1, r.2@) == (
            handed_out(job@, id),
            200i32,
            "{\"ok\":true,\"job_id\":"@ + text::int_text(id as int) + "}"@,
        ),
{
    let dir = NFS_PKG_PATH.to_string().concat("/jobs");
    let path = dir.as_str().to_string().concat("/").concat(integer(id).as_str()).concat("-").concat(
        job.filename.as_str(),
    );
    let step = Step::stop().with(Effect::MakeDir(dir)).with(Effect::WriteBytes(path, job.content));
    let body = "{\"ok\":true,\"job_id\":".to_string().concat(integer(id).as_str()).concat("}");
    (step, 200, body)
}

/// The body that submits the file `filename` with the bytes `content`.
pub open spec fn submission(filename: Seq<char>, content: Seq<u8>, by: Seq<char>) -> Seq<char> {
    "{\"filename\":\""@ + filename + "\",\"content\":\""@ + base64::encoded(content)
        + "\",\"submitted_by\":\""@ + by + "\"}"@
}

/// The body that submits the file `filename` with the bytes `content`.
pub fn submit_body(filename: &str, content: &Vec<u8>, by: &str) -> (r: String)
    ensures
        r@ == submission(filename@, content@, by@),
{
    "{\"filename\":\"".to_string().concat(filename).concat("\",\"content\":\"").concat(
        base64_encode(content.as_slice()).as_str(),
    ).concat("\",\"submitted_by\":\"").concat(by).concat("\"}")
}

/// The number of the job that a file of this name belongs to: the digits before its first hyphen.
pub open spec fn number_in(name: Seq<char>) -> Option<i64> {
    if text::includes(name, "-"@) {
        text::number_value(text::before(name, "-"@))
    } else {
        None
    }
}

/// The number of the job that a file of this name belongs to: the digits before its first hyphen.
pub fn job_number(name: &str) -> (r: Option<i64>)
    ensures
        r == number_in(name@),
{
    if contains(name, "-") {
        parse_number(head(name, "-"))
    } else {
        None
    }
}

/// Whether there is a job with the number `id`.
pub open spec fn known(rows: Seq<JobRowView>, id: i64) -> bool {
    exists|i: int| 0 <= i < rows.len() && (#[trigger] rows[i]).id == id
}

/// Whether a job can end with this status.
pub open spec fn is_final(status: Seq<char>) -> bool {
    status == "done"@ || status == "failed"@
}

/// The answer to a report on a job: an HTTP status, a body, and what became of the job. `None`
/// stands for a report that could not be read.
pub open spec fn report_answer(
    rows: Seq<JobRowView>,
    report: Option<JobReportView>,
    now: i64,
) -> (i32, Seq<char>, Option<JobOutcomeView>) {
    match report {
        None => (400, "{\"error\":\"bad request\"}"@, None),
        Some(r) => if !is_final(r.status) {
            (400, "{\"error\":\"bad request\"}"@, None)
        } else {
            match r.job_id {
                Some(id) => if known(rows, id) {
                    (
                        200,
                        "{\"ok\":true}"@,
                        Some(
                            JobOutcomeView {
                                id,
                                status: r.status,
                                worker_id: r.worker_id,
                                completed_at: now,
                            },
                        ),
                    )
                } else {
                    (404, "{\"error\":\"unknown job\"}"@, None)
                },
                None => (404, "{\"error\":\"unknown job\"}"@, None),
            }
        },
    }
}

fn is_known(rows: &Vec<JobRow>, id: i64) -> (r: bool)
    ensures
        r == known(records::views(rows@), id),
{
    let ghost all = records::views(rows@);
    for i in 0..rows.len()
        invariant
            all == records::views(rows@),
            forall|j: int| 0 <= j < i ==> (#[trigger] all[j]).id != id,
    {
        assert(all[i as int] == rows@[i as int]@);
        if rows[i].id == id {
            return true;
        }
    }
    false
}

/// Answers a report on a job, and says what became of the job.
pub fn api_job_report(rows: &Vec<JobRow>, report: Option<JobReport>, now: i64) -> (r: (
    i32,
    String,
    Option<JobOutcome>,
))
    ensures
        (r.0, r.1@, records::opt_view(r.2)) == report_answer(
            records::views(rows@),
            records::opt_view(report),
            now,
        ),
{
    match report {
        None => (400, "{\"error\":\"bad request\"}".to_string(), None),
        Some(r) => {
            if !(same(r.status.as_str(), "done") || same(r.status.as_str(), "failed")) {
                return (400, "{\"error\":\"bad request\"}".to_string(), None);
            }
            match r.job_id {
                Some(id) => {
                    if is_known(rows, id) {
                        let outcome = JobOutcome {
                            id,
                            status: r.status,
                            worker_id: r.worker_id,
                            completed_at: now,
                        };
                        (200, "{\"ok\":true}".to_string(), Some(outcome))
                    } else {
                        (404, "{\"error\":\"unknown job\"}".to_string(), None)
                    }
                },
                None => (404, "{\"error\":\"unknown job\"}".to_string(), None),
            }
        },
    }
}

/// The jobs once it is stored what became of one.
pub open spec fn settled(rows: Seq<JobRowView>, o: JobOutcomeView) -> Seq<JobRowView> {
    Seq::new(
        rows.len(),
        |i: int|
            if rows[i].id == o.id {
                JobRowView { status: o.status, worker_id: Some(o.worker_id), ..rows[i] }
            } else {
                rows[i]
            },
    )
}

/// A worker's name in quotes, or `null`.
pub open spec fn worker_field(w: Option<Seq<char>>) -> Seq<char> {
    match w {
        Some(id) => "\""@ + id + "\""@,
        None => "null"@,
    }
}

/// A job as the API shows it.
pub open spec fn job_line(j: JobRowView) -> Seq<char> {
    "{\"id\":"@ + text::int_text(j.id as int) + ",\"filename\":\""@ + j.filename
        + "\",\"submitted_by\":\""@ + j.submitted_by + "\",\"status\":\""@ + j.status
        + "\",\"submitted_at\":"@ + text::int_text(j.submitted_at as int) + ",\"worker\":"@
        + worker_field(j.worker_id) + "}"@
}

/// When the jobs were submitted.
pub open spec fn submit_times(rows: Seq<JobRowView>) -> Seq<i64> {
    Seq::new(rows.len(), |i: int| rows[i].submitted_at)
}

/// The jobs as the API shows them: what was submitted last comes first.
pub open spec fn job_lines(rows: Seq<JobRowView>) -> Seq<Seq<char>> {
    order::lines(
        rows,
        order::ordering(rows.len(), order::by_number_down(submit_times(rows))),
        LISTED as nat,
        |j: JobRowView| job_line(j),
    )
}

fn job_entry(j: &JobRow) -> (r: String)
    ensures
        r@ == job_line(j@),
{
    let worker = match &j.worker_id {
        Some(id) => "\"".to_string().concat(id.as_str()).concat("\""),
        None => "null".to_string(),
    };
    "{\"id\":".to_string().concat(integer(j.id).as_str()).concat(",\"filename\":\"").concat(
        j.filename.as_str(),
    ).concat("\",\"submitted_by\":\"").concat(j.submitted_by.as_str()).concat(
        "\",\"status\":\"",
    ).concat(j.status.as_str()).concat("\",\"submitted_at\":").concat(
        integer(j.submitted_at).as_str(),
    ).concat(",\"worker\":").concat(worker.as_str()).concat("}")
}

/// Shows the jobs: what was submitted last comes first, and only so many are shown.
pub fn api_jobs(rows: &Vec<JobRow>) -> (r: (i32, String))
    ensures
        (r.0, r.1@) == (200i32, json_text::array(job_lines(records::views(rows@)))),
{
    let ghost all = records::views(rows@);
    let mut keys: Vec<i64> = Vec::new();
    for i in 0..rows.len()
        invariant
            all == records::views(rows@),
            keys@ == submit_times(all).take(i as int),
    {
        assert(all[i as int] == rows@[i as int]@);
        keys.push(rows[i].submitted_at);
        assert(keys@ =~= submit_times(all).take(i + 1));
    }
    assert(keys@ =~= submit_times(all));
    let order = order_by_number(&keys, true);
    let n = if order.len() < LISTED {
        order.len()
    } else {
        LISTED
    };
    let mut entries: Vec<String> = Vec::new();
    for i in 0..n
        invariant
            all == records::views(rows@),
            n <= order@.len(),
            n == job_lines(all).len(),
            order::ints(order@) == order::ordering(
                all.len(),
                order::by_number_down(submit_times(all)),
            ),
            forall|k: int| 0 <= k < order@.len() ==> #[trigger] order@[k] < rows@.len(),
            entries.deep_view() == job_lines(all).take(i as int),
    {
        let k = order[i];
        assert(order::ints(order@)[i as int] == k);
        assert(all[k as int] == rows@[k as int]@);
        let entry = job_entry(&rows[k]);
        assert(job_lines(all)[i as int] == entry@);
        let ghost was = entries.deep_view();
        entries.push(entry);
        assert(entries.deep_view() =~= was.push(entry@));
        assert(was.push(entry@) =~= job_lines(all).take(i + 1));
    }
    assert(job_lines(all).take(n as int) =~= job_lines(all));
    (200, json_array(&entries))
}

/// A file that is submitted reaches the workers byte for byte: what `submit_body` writes can be
/// decoded, and the job's file holds it.
pub proof fn law_submitted_file_arrives(
    filename: Seq<char>,
    content: Seq<u8>,
    by: Seq<char>,
    now: i64,
    id: i64,
)
    ensures
        ({
            let req = JobSubmitView { filename, content: base64::encoded(content), submitted_by: by };
            &&& base64::decodable(req.content)
            &&& job_of(req, now).content == content
            &&& handed_out(job_of(req, now), id).effects.contains(
                EffectView::WriteBytes(job_path(id, filename), content),
            )
        }),
{
    base64::law_decode_encode(content);
    let req = JobSubmitView { filename, content: base64::encoded(content), submitted_by: by };
    assert(handed_out(job_of(req, now), id).effects[1] == EffectView::WriteBytes(
        job_path(id, filename),
        content,
    ));
}

/// No two jobs have one file, whatever their files are called.
pub proof fn law_job_files_differ(a: i64, f: Seq<char>, b: i64, g: Seq<char>)
    requires
        0 <= a,
        0 <= b,
        a != b,
    ensures
        job_path(a, f) != job_path(b, g),
{
    if job_path(a, f) == job_path(b, g) {
        let top = jobs_dir() + "/"@;
        let x = text::nat_text(a as nat);
        let y = text::nat_text(b as nat);
        text::lemma_nat_text(a as nat);
        text::lemma_nat_text(b as nat);
        reveal_strlit("-");
        let p = x + "-"@ + f;
        let q = y + "-"@ + g;
        assert(job_path(a, f) =~= top + p);
        assert(job_path(b, g) =~= top + q);
        assert(p =~= q) by {
            assert((top + p).skip(top.len() as int) =~= p);
            assert((top + q).skip(top.len() as int) =~= q);
        }
        if x.len() < y.len() {
            assert(p[x.len() as int] == '-');
            assert(q[x.len() as int] == y[x.len() as int]);
            assert(text::is_digit(y[x.len() as int]));
        } else if y.len() < x.len() {
            assert(q[y.len() as int] == '-');
            assert(p[y.len() as int] == x[y.len() as int]);
            assert(text::is_digit(x[y.len() as int]));
        } else {
            assert forall|i: int| 0 <= i < x.len() implies x[i] == y[i] by {
                assert(p[i] == x[i] && q[i] == y[i]);
            }
            assert(x =~= y);
        }
    }
}

/// The API shows what was submitted last first, and shows every job while the table is short.
pub proof fn law_job_listing(rows: Seq<JobRowView>, a: int, b: int)
    requires
        0 <= a < b < job_lines(rows).len(),
    ensures
        ({
            let order = order::ordering(rows.len(), order::by_number_down(submit_times(rows)));
            &&& job_lines(rows)[a] == job_line(rows[order[a]])
            &&& 0 <= order[a] < rows.len()
            &&& 0 <= order[b] < rows.len()
            &&& order[a] != order[b]
            &&& rows[order[a]].submitted_at >= rows[order[b]].submitted_at
            &&& rows.len() <= LISTED ==> job_lines(rows).len() == rows.len()
        }),
{
    let keys = submit_times(rows);
    order::law_orders(Seq::empty(), keys);
    order::law_ordering(rows.len(), keys.len(), order::by_number_down(keys));
    let order = order::ordering(rows.len(), order::by_number_down(keys));
    assert(order::by_number_down(keys)(order[a], order[b]));
}

/// The file that a job is handed out in says the job's number.
pub proof fn law_file_says_its_job(id: i64, filename: Seq<char>)
    requires
        0 <= id,
    ensures
        job_path(id, filename) == jobs_dir() + "/"@ + (text::int_text(id as int) + "-"@ + filename),
        number_in(text::int_text(id as int) + "-"@ + filename) == Some(id),
{
    let digits = text::nat_text(id as nat);
    text::lemma_nat_text(id as nat);
    reveal_strlit("-");
    assert(job_path(id, filename) =~= jobs_dir() + "/"@ + (digits + "-"@ + filename));
    assert forall|i: int| 0 <= i < digits.len() implies #[trigger] digits[i] != '-' by {
        assert(text::is_digit(digits[i]));
    }
    text::lemma_first_separator(digits, "-"@, filename);
    let name = digits + "-"@ + filename;
    text::lemma_find_from(name, "-"@, 0);
    assert(text::occurs_at(name, "-"@, digits.len() as int));
    assert(name.take(digits.len() as int) =~= digits);
}

/// A report on a job that there is sets that job's status and worker, and changes no other job.
pub proof fn law_report_settles_job(
    rows: Seq<JobRowView>,
    r: JobReportView,
    id: i64,
    now: i64,
    i: int,
)
    requires
        is_final(r.status),
        r.job_id == Some(id),
        known(rows, id),
        0 <= i < rows.len(),
    ensures
        ({
            let o = report_answer(rows, Some(r), now).2;
            &&& o is Some
            &&& settled(rows, o->0)[i] == if rows[i].id == id {
                JobRowView { status: r.status, worker_id: Some(r.worker_id), ..rows[i] }
            } else {
                rows[i]
            }
        }),
{
}

/// What the API shows of a job: its number, its file, who submitted it, its own status, when it was
/// submitted, and the worker that built it, or none.
pub proof fn law_job_line(j: JobRowView)
    ensures
        job_line(j) == "{\"id\":"@ + text::int_text(j.id as int) + ",\"filename\":\""@ + j.filename
            + "\",\"submitted_by\":\""@ + j.submitted_by + "\",\"status\":\""@ + j.status
            + "\",\"submitted_at\":"@ + text::int_text(j.submitted_at as int) + ",\"worker\":"@ + (
        match j.worker_id {
            Some(w) => "\""@ + w + "\""@,
            None => "null"@,
        }) + "}"@,
{
}

proof fn lemma_worker_fields_differ(a: Option<Seq<char>>, b: Option<Seq<char>>)
    requires
        worker_field(a) == worker_field(b),
    ensures
        a == b,
{
    reveal_strlit("\"");
    reveal_strlit("null");
    match (a, b) {
        (Some(x), Some(y)) => {
            text::lemma_same_middle("\""@, x, y, "\""@);
        },
        (Some(_), None) => {
            assert(worker_field(a)[0] == '"');
        },
        (None, Some(_)) => {
            assert(worker_field(b)[0] == '"');
        },
        (None, None) => {},
    }
}

/// Two jobs that differ in one thing that is shown have different lines: in their number, their
/// file, their submitter, their status, their time or their worker.
pub proof fn law_job_lines_differ(a: JobRowView, b: JobRowView)
    requires
        job_line(a) == job_line(b),
    ensures
        (JobRowView { id: b.id, ..a }) == b ==> a == b,
        (JobRowView { filename: b.filename, ..a }) == b ==> a == b,
        (JobRowView { submitted_by: b.submitted_by, ..a }) == b ==> a == b,
        (JobRowView { status: b.status, ..a }) == b ==> a == b,
        (JobRowView { submitted_at: b.submitted_at, ..a }) == b ==> a == b,
        (JobRowView { worker_id: b.worker_id, ..a }) == b ==> a == b,
{
    let a0 = "{\"id\":"@;
    let a1 = a0 + text::int_text(a.id as int);
    let a2 = a1 + ",\"filename\":\""@;
    let a3 = a2 + a.filename;
    let a4 = a3 + "\",\"submitted_by\":\""@;
    let a5 = a4 + a.submitted_by;
    let a6 = a5 + "\",\"status\":\""@;
    let a7 = a6 + a.status;
    let a8 = a7 + "\",\"submitted_at\":"@;
    let a9 = a8 + text::int_text(a.submitted_at as int);
    let a10 = a9 + ",\"worker\":"@;
    let a11 = a10 + worker_field(a.worker_id);
    let a12 = a11 + "}"@;
    let b0 = "{\"id\":"@;
    let b1 = b0 + text::int_text(b.id as int);
    let b2 = b1 + ",\"filename\":\""@;
    let b3 = b2 + b.filename;
    let b4 = b3 + "\",\"submitted_by\":\""@;
    let b5 = b4 + b.submitted_by;
    let b6 = b5 + "\",\"status\":\""@;
    let b7 = b6 + b.status;
    let b8 = b7 + "\",\"submitted_at\":"@;
    let b9 = b8 + text::int_text(b.submitted_at as int);
    let b10 = b9 + ",\"worker\":"@;
    let b11 = b10 + worker_field(b.worker_id);
    let b12 = b11 + "}"@;
    assert(job_line(a) == a12 && job_line(b) == b12);
    assert((JobRowView { id: b.id, ..a }) == b ==> a == b) by {
        if (JobRowView { id: b.id, ..a }) == b {
            text::lemma_same_front(a11, b11, "}"@);
            text::lemma_same_front(a10, b10, worker_field(a.worker_id));
            text::lemma_same_front(a9, b9, ",\"worker\":"@);
            text::lemma_same_front(a8, b8, text::int_text(a.submitted_at as int));
            text::lemma_same_front(a7, b7, "\",\"submitted_at\":"@);
            text::lemma_same_front(a6, b6, a.status);
            text::lemma_same_front(a5, b5, "\",\"status\":\""@);
            text::lemma_same_front(a4, b4, a.submitted_by);
            text::lemma_same_front(a3, b3, "\",\"submitted_by\":\""@);
            text::lemma_same_front(a2, b2, a.filename);
            text::lemma_same_front(a1, b1, ",\"filename\":\""@);
            text::lemma_same_rest(a0, text::int_text(a.id as int), text::int_text(b.id as int));
            text::law_numbers_differ(a.id as int, b.id as int);
        }
    }
    assert((JobRowView { filename: b.filename, ..a }) == b ==> a == b) by {
        if (JobRowView { filename: b.filename, ..a }) == b {
            text::lemma_same_front(a11, b11, "}"@);
            text::lemma_same_front(a10, b10, worker_field(a.worker_id));
            text::lemma_same_front(a9, b9, ",\"worker\":"@);
            text::lemma_same_front(a8, b8, text::int_text(a.submitted_at as int));
            text::lemma_same_front(a7, b7, "\",\"submitted_at\":"@);
            text::lemma_same_front(a6, b6, a.status);
            text::lemma_same_front(a5, b5, "\",\"status\":\""@);
            text::lemma_same_front(a4, b4, a.submitted_by);
            text::lemma_same_front(a3, b3, "\",\"submitted_by\":\""@);
            text::lemma_same_rest(a2, a.filename, b.filename);
        }
    }
    assert((JobRowView { submitted_by: b.submitted_by, ..a }) == b ==> a == b) by {
        if (JobRowView { submitted_by: b.submitted_by, ..a }) == b {
            text::lemma_same_front(a11, b11, "}"@);
            text::lemma_same_front(a10, b10, worker_field(a.worker_id));
            text::lemma_same_front(a9, b9, ",\"worker\":"@);
            text::lemma_same_front(a8, b8, text::int_text(a.submitted_at as int));
            text::lemma_same_front(a7, b7, "\",\"submitted_at\":"@);
            text::lemma_same_front(a6, b6, a.status);
            text::lemma_same_front(a5, b5, "\",\"status\":\""@);
            text::lemma_same_rest(a4, a.submitted_by, b.submitted_by);
        }
    }
    assert((JobRowView { status: b.status, ..a }) == b ==> a == b) by {
        if (JobRowView { status: b.status, ..a }) == b {
            text::lemma_same_front(a11, b11, "}"@);
            text::lemma_same_front(a10, b10, worker_field(a.worker_id));
            text::lemma_same_front(a9, b9, ",\"worker\":"@);
            text::lemma_same_front(a8, b8, text::int_text(a.submitted_at as int));
            text::lemma_same_front(a7, b7, "\",\"submitted_at\":"@);
            text::lemma_same_rest(a6, a.status, b.status);
        }
    }
    assert((JobRowView { submitted_at: b.submitted_at, ..a }) == b ==> a == b) by {
        if (JobRowView { submitted_at: b.submitted_at, ..a }) == b {
            text::lemma_same_front(a11, b11, "}"@);
            text::lemma_same_front(a10, b10, worker_field(a.worker_id));
            text::lemma_same_front(a9, b9, ",\"worker\":"@);
            text::lemma_same_rest(a8, text::int_text(a.submitted_at as int), text::int_text(b.submitted_at as int));
            text::law_numbers_differ(a.submitted_at as int, b.submitted_at as int);
        }
    }
    assert((JobRowView { worker_id: b.worker_id, ..a }) == b ==> a == b) by {
        if (JobRowView { worker_id: b.worker_id, ..a }) == b {
            text::lemma_same_front(a11, b11, "}"@);
            text::lemma_same_rest(a10, worker_field(a.worker_id), worker_field(b.worker_id));
            lemma_worker_fields_differ(a.worker_id, b.worker_id);
        }
    }
}

/// Each line of the jobs is that of a job that there is, and up to a hundred jobs are all shown.
pub proof fn law_jobs_shown(rows: Seq<JobRowView>, a: int, k: int)
    requires
        0 <= k < rows.len(),
    ensures
        job_lines(rows).len() == if rows.len() < 100 {
            rows.len()
        } else {
            100
        },
        0 <= a < job_lines(rows).len() ==> exists|i: int|
            0 <= i < rows.len() && job_lines(rows)[a] == job_line(#[trigger] rows[i]),
        rows.len() <= 100 ==> job_lines(rows).contains(job_line(rows[k])),
{
    let keys = submit_times(rows);
    order::law_orders(Seq::empty(), keys);
    order::law_ordering(rows.len(), keys.len(), order::by_number_down(keys));
    let order = order::ordering(rows.len(), order::by_number_down(keys));
    if 0 <= a < job_lines(rows).len() {
        assert(0 <= order[a] < rows.len());
        assert(job_lines(rows)[a] == job_line(rows[order[a]]));
    }
    if rows.len() <= 100 {
        assert(order.contains(k));
        let m = choose|m: int| 0 <= m < order.len() && order[m] == k;
        assert(job_lines(rows)[m] == job_line(rows[k]));
    }
}

/// What a submission makes of the farm: a job with its file's name and bytes, its submitter, the
/// status `queued` and the time.
pub proof fn law_submission_is_kept(req: JobSubmitView, now: i64)
    ensures
        job_of(req, now) == (NewJobView {
            filename: req.filename,
            content: base64::decoded(req.content),
            submitted_by: req.submitted_by,
            status: "queued"@,
            submitted_at: now,
        }),
{
}

/// A stored job is handed out in the folder `jobs` of the share, under its number and its name, with
/// its bytes.
pub proof fn law_job_is_handed_out(job: NewJobView, id: i64)
    ensures
        ({
            let step = handed_out(job, id);
            let dir = "/srv/smech-farm/packages/jobs"@;
            let path = dir + "/"@ + text::int_text(id as int) + "-"@ + job.filename;
            &&& step.effects.len() == 2
            &&& step.effects[0] == EffectView::MakeDir(dir)
            &&& step.effects[1] == EffectView::WriteBytes(path, job.content)
            &&& step.ask is None
        }),
{
    reveal_strlit("/srv/smech-farm/packages/jobs");
    reveal_strlit("/srv/smech-farm/packages");
    reveal_strlit("/jobs");
    assert(jobs_dir() =~= "/srv/smech-farm/packages/jobs"@);
}

/// A submission says what the file is called, its bytes in base64, and who submits it; so two
/// submissions of different bytes, or by different people, are different.
pub proof fn law_submissions_differ(
    f: Seq<char>,
    a: Seq<u8>,
    b: Seq<u8>,
    by: Seq<char>,
    other: Seq<char>,
)
    ensures
        submission(f, a, by) == "{\"filename\":\""@ + f + "\",\"content\":\""@ + base64::encoded(a)
            + "\",\"submitted_by\":\""@ + by + "\"}"@,
        submission(f, a, by) == submission(f, b, by) ==> a == b,
        submission(f, a, by) == submission(f, a, other) ==> by == other,
{
    let front = "{\"filename\":\""@ + f + "\",\"content\":\""@;
    let back = "\",\"submitted_by\":\""@ + by + "\"}"@;
    assert(submission(f, a, by) =~= front + base64::encoded(a) + back);
    assert(submission(f, b, by) =~= front + base64::encoded(b) + back);
    if submission(f, a, by) == submission(f, b, by) {
        text::lemma_same_middle(front, base64::encoded(a), base64::encoded(b), back);
        base64::law_encoded_injective(a, b);
    }
    if submission(f, a, by) == submission(f, a, other) {
        text::lemma_same_middle(
            front + base64::encoded(a) + "\",\"submitted_by\":\""@,
            by,
            other,
            "\"}"@,
        );
    }
}

/// Which report is accepted: one that says `done` or `failed` of a job that there is. It sets just
/// that job's status, worker and time. Another status is a bad request, another job is unknown.
pub proof fn law_report_answers(
    rows: Seq<JobRowView>,
    r: JobReportView,
    now: i64,
)
    ensures
        ({
            let ended = r.status == "done"@ || r.status == "failed"@;
            let there = exists|i: int|
                0 <= i < rows.len() && Some((#[trigger] rows[i]).id) == r.job_id;
            report_answer(rows, Some(r), now) == if !ended {
                (400i32, "{\"error\":\"bad request\"}"@, None)
            } else if !there {
                (404i32, "{\"error\":\"unknown job\"}"@, None)
            } else {
                (
                    200i32,
                    "{\"ok\":true}"@,
                    Some(
                        JobOutcomeView {
                            id: r.job_id->0,
                            status: r.status,
                            worker_id: r.worker_id,
                            completed_at: now,
                        },
                    ),
                )
            }
        }),
        report_answer(rows, None, now) == (
            400i32,
            "{\"error\":\"bad request\"}"@,
            None::<JobOutcomeView>,
        ),
{
    if let Some(id) = r.job_id {
        if known(rows, id) {
            let i = choose|i: int| 0 <= i < rows.len() && (#[trigger] rows[i]).id == id;
            assert(Some(rows[i].id) == r.job_id);
        }
    }
}

/// A name says a job's number only where it begins with digits and a hyphen: a name without a
/// hyphen says none, and neither does one with anything but digits before it.
pub proof fn law_names_without_a_number(name: Seq<char>, i: int)
    ensures
        text::lacks(name, '-') ==> number_in(name) is None,
        number_in(name) is Some && 0 <= i < text::before(name, "-"@).len() ==> '0' as int
            <= name[i] as int <= '9' as int,
        number_in(name) matches Some(n) ==> n >= 0 && text::before(name, "-"@).len() > 0,
{
    reveal_strlit("-");
    if text::includes(name, "-"@) {
        let k = choose|k: int| text::occurs_at(name, "-"@, k);
        text::lemma_single(name, "-"@, k);
    }
    text::law_before_and_after(name, "-"@);
    let b = text::before(name, "-"@);
    text::law_numbers_are_read(0, b, i);
    if number_in(name) is Some && 0 <= i < b.len() {
        assert(b[i] == name[i]);
    }
}

} // verus!
