//! What the API answers.

use vstd::prelude::*;

use crate::config::{wg_enabled, WireGuardConfig, WireGuardConfigView};
use crate::jobs;
use crate::json_text;
use crate::json_text::json_array;
use crate::order;
use crate::order::order_by_number;
use crate::records;
use crate::records::{
    Farm, FarmView, JobOutcomeView, JobRowView, PackageRowView, PeerRow, PeerRowView, WorkerRowView,
};
use crate::text;
use crate::text::{head, integer, number, same, split, starts_with};
use crate::webui::VERSION;
use crate::wireguard;
use crate::wireguard::wg_server_pubkey;

verus! {

/// How many of `list` are `s`.
pub open spec fn counted(list: Seq<Seq<char>>, s: Seq<char>) -> nat
    decreases list.len(),
{
    if list.len() == 0 {
        0
    } else if list.last() == s {
        counted(list.drop_last(), s) + 1
    } else {
        counted(list.drop_last(), s)
    }
}

fn count(list: &Vec<&str>, s: &str) -> (r: usize)
    ensures
        r == counted(list.deep_view(), s@),
{
    let ghost all = list.deep_view();
    let mut n: usize = 0;
    for i in 0..list.len()
        invariant
            all == list.deep_view(),
            n <= i,
            n == counted(all.take(i as int), s@),
    {
        assert(all.take(i + 1).drop_last() =~= all.take(i as int));
        if same(list[i], s) {
            n += 1;
        }
    }
    assert(all.take(list@.len() as int) =~= all);
    n
}

/// How the workers are.
pub open spec fn worker_states(f: FarmView) -> Seq<Seq<char>> {
    Seq::new(f.workers.len(), |i: int| f.workers[i].status)
}

/// How the packages are.
pub open spec fn package_states(f: FarmView) -> Seq<Seq<char>> {
    Seq::new(f.packages.len(), |i: int| f.packages[i].status)
}

/// How the jobs are.
pub open spec fn job_states(f: FarmView) -> Seq<Seq<char>> {
    Seq::new(f.jobs.len(), |i: int| f.jobs[i].status)
}

/// The farm in numbers; there are `-1` peers where the tunnel is off.
pub open spec fn status_text(wg: bool, f: FarmView) -> Seq<char> {
    "{\"version\":\""@ + VERSION@ + "\",\"online_workers\":"@ + text::nat_text(
        counted(worker_states(f), "online"@),
    ) + ",\"pending_packages\":"@ + text::nat_text(counted(package_states(f), "pending"@))
        + ",\"queued_jobs\":"@ + text::nat_text(counted(job_states(f), "queued"@))
        + ",\"completed_jobs\":"@ + text::nat_text(counted(job_states(f), "done"@))
        + ",\"wg_peers\":"@ + text::int_text(
        if wg {
            f.peers.len() as int
        } else {
            -1
        },
    ) + "}"@
}

fn states_of_workers(f: &Farm) -> (r: Vec<&str>)
    ensures
        r.deep_view() == worker_states(f@),
{
    let ghost all = worker_states(f@);
    let mut out: Vec<&str> = Vec::new();
    assert(out.deep_view() =~= all.take(0));
    for i in 0..f.workers.len()
        invariant
            all == worker_states(f@),
            out.deep_view() == all.take(i as int),
    {
        assert(f@.workers[i as int] == f.workers@[i as int]@);
        let ghost was = out.deep_view();
        let s = f.workers[i].status.as_str();
        out.push(s);
        assert(out.deep_view() =~= was.push(s@));
        assert(was.push(s@) =~= all.take(i + 1));
    }
    assert(all.take(f.workers@.len() as int) =~= all);
    out
}

fn states_of_packages(f: &Farm) -> (r: Vec<&str>)
    ensures
        r.deep_view() == package_states(f@),
{
    let ghost all = package_states(f@);
    let mut out: Vec<&str> = Vec::new();
    assert(out.deep_view() =~= all.take(0));
    for i in 0..f.packages.len()
        invariant
            all == package_states(f@),
            out.deep_view() == all.take(i as int),
    {
        assert(f@.packages[i as int] == f.packages@[i as int]@);
        let ghost was = out.deep_view();
        let s = f.packages[i].status.as_str();
        out.push(s);
        assert(out.deep_view() =~= was.push(s@));
        assert(was.push(s@) =~= all.take(i + 1));
    }
    assert(all.take(f.packages@.len() as int) =~= all);
    out
}

fn states_of_jobs(f: &Farm) -> (r: Vec<&str>)
    ensures
        r.deep_view() == job_states(f@),
{
    let ghost all = job_states(f@);
    let mut out: Vec<&str> = Vec::new();
    assert(out.deep_view() =~= all.take(0));
    for i in 0..f.jobs.len()
        invariant
            all == job_states(f@),
            out.deep_view() == all.take(i as int),
    {
        assert(f@.jobs[i as int] == f.jobs@[i as int]@);
        let ghost was = out.deep_view();
        let s = f.jobs[i].status.as_str();
        out.push(s);
        assert(out.deep_view() =~= was.push(s@));
        assert(was.push(s@) =~= all.take(i + 1));
    }
    assert(all.take(f.jobs@.len() as int) =~= all);
    out
}

/// Shows the farm in numbers.
pub fn api_status(wg: &WireGuardConfig, f: &Farm) -> (r: (i32, String))
    ensures
        (r.0, r.1@) == (200i32, status_text(wg.enabled, f@)),
{
    let jobs = states_of_jobs(f);
    let peers = if wg_enabled(wg) {
        number(f.peers.len() as u64)
    } else {
        integer(-1)
    };
    let body = "{\"version\":\"".to_string().concat(VERSION).concat(
        "\",\"online_workers\":",
    ).concat(number(count(&states_of_workers(f), "online") as u64).as_str()).concat(
        ",\"pending_packages\":",
    ).concat(number(count(&states_of_packages(f), "pending") as u64).as_str()).concat(
        ",\"queued_jobs\":",
    ).concat(number(count(&jobs, "queued") as u64).as_str()).concat(
        ",\"completed_jobs\":",
    ).concat(number(count(&jobs, "done") as u64).as_str()).concat(",\"wg_peers\":").concat(
        peers.as_str(),
    ).concat("}");
    (200, body)
}

/// The answer where the tunnel is off.
pub open spec fn tunnel_off() -> (i32, Seq<char>) {
    (404, "{\"error\":\"WireGuard not enabled\"}"@)
}

/// What a worker has to know of the server, given what the file of its public key holds.
pub open spec fn server_info(wg: WireGuardConfigView, file: Option<Seq<char>>) -> (i32, Seq<char>) {
    if !wg.enabled {
        tunnel_off()
    } else {
        (
            200,
            "{\"enabled\":true,\"public_key\":\""@ + wireguard::server_pubkey(file)
                + "\",\"endpoint\":\""@ + wg.server_endpoint + "\",\"server_ip\":\""@
                + wg.server_wg_ip + "\",\"listen_port\":"@ + text::nat_text(wg.listen_port as nat)
                + "}"@,
        )
    }
}

/// Shows what a worker has to know of the server, given what the file of its public key holds.
pub fn api_wg_server_info(wg: &WireGuardConfig, file: &Option<String>) -> (r: (i32, String))
    ensures
        (r.0, r.1@) == server_info(wg@, records::opt_text(*file)),
{
    if !wg_enabled(wg) {
        return (404, "{\"error\":\"WireGuard not enabled\"}".to_string());
    }
    let body = "{\"enabled\":true,\"public_key\":\"".to_string().concat(
        wg_server_pubkey(file).as_str(),
    ).concat("\",\"endpoint\":\"").concat(wg.server_endpoint.as_str()).concat(
        "\",\"server_ip\":\"",
    ).concat(wg.server_wg_ip.as_str()).concat("\",\"listen_port\":").concat(
        number(wg.listen_port as u64).as_str(),
    ).concat("}");
    (200, body)
}

/// A peer as the API shows it.
pub open spec fn peer_line(p: PeerRowView) -> Seq<char> {
    "{\"name\":\""@ + p.worker_name + "\",\"ip\":\""@ + p.assigned_ip + "\",\"public_key\":\""@
        + p.public_key + "\",\"added_at\":"@ + text::int_text(p.added_at as int) + "}"@
}

/// When the peers were added.
pub open spec fn added_times(rows: Seq<PeerRowView>) -> Seq<i64> {
    Seq::new(rows.len(), |i: int| rows[i].added_at)
}

/// The numbers of the peers, who came first being first.
pub open spec fn by_age(rows: Seq<PeerRowView>) -> Seq<int> {
    order::ordering(rows.len(), order::by_number(added_times(rows)))
}

/// The peers as the API shows them.
pub open spec fn peer_lines(rows: Seq<PeerRowView>) -> Seq<Seq<char>> {
    order::lines(rows, by_age(rows), rows.len(), |p: PeerRowView| peer_line(p))
}

/// The numbers of the peers, who came first being first.
pub fn order_by_age(rows: &Vec<PeerRow>) -> (r: Vec<usize>)
    ensures
        order::ints(r@) == by_age(records::views(rows@)),
        r@.len() == rows@.len(),
        forall|k: int| 0 <= k < r@.len() ==> #[trigger] r@[k] < rows@.len(),
{
    let ghost all = records::views(rows@);
    let mut keys: Vec<i64> = Vec::new();
    for i in 0..rows.len()
        invariant
            all == records::views(rows@),
            keys@ == added_times(all).take(i as int),
    {
        assert(all[i as int] == rows@[i as int]@);
        keys.push(rows[i].added_at);
        assert(keys@ =~= added_times(all).take(i + 1));
    }
    assert(keys@ =~= added_times(all));
    order_by_number(&keys, false)
}

fn peer_entry(p: &PeerRow) -> (r: String)
    ensures
        r@ == peer_line(p@),
{
    "{\"name\":\"".to_string().concat(p.worker_name.as_str()).concat("\",\"ip\":\"").concat(
        p.assigned_ip.as_str(),
    ).concat("\",\"public_key\":\"").concat(p.public_key.as_str()).concat(
        "\",\"added_at\":",
    ).concat(integer(p.added_at).as_str()).concat("}")
}

/// What is shown of the peers.
pub open spec fn peers_answer(wg: WireGuardConfigView, rows: Seq<PeerRowView>) -> (i32, Seq<char>) {
    if !wg.enabled {
        tunnel_off()
    } else {
        (200, json_text::array(peer_lines(rows)))
    }
}

/// Shows the peers, who came first being first.
pub fn api_wg_peers(wg: &WireGuardConfig, rows: &Vec<PeerRow>) -> (r: (i32, String))
    ensures
        (r.0, r.1@) == peers_answer(wg@, records::views(rows@)),
{
    if !wg_enabled(wg) {
        return (404, "{\"error\":\"WireGuard not enabled\"}".to_string());
    }
    let ghost all = records::views(rows@);
    let order = order_by_age(rows);
    let n = order.len();
    let mut entries: Vec<String> = Vec::new();
    assert(order::ints(order@).len() == n);
    for i in 0..n
        invariant
            all == records::views(rows@),
            n == order@.len(),
            n == peer_lines(all).len(),
            order::ints(order@) == by_age(all),
            forall|k: int| 0 <= k < order@.len() ==> #[trigger] order@[k] < rows@.len(),
            entries.deep_view() == peer_lines(all).take(i as int),
    {
        let k = order[i];
        assert(order::ints(order@)[i as int] == k);
        assert(all[k as int] == rows@[k as int]@);
        let entry = peer_entry(&rows[k]);
        assert(peer_lines(all)[i as int] == entry@);
        let ghost was = entries.deep_view();
        entries.push(entry);
        assert(entries.deep_view() =~= was.push(entry@));
        assert(was.push(entry@) =~= peer_lines(all).take(i + 1));
    }
    assert(peer_lines(all).take(n as int) =~= peer_lines(all));
    (200, json_array(&entries))
}

/// The network that the address `ip` is in: the addresses that have its first three parts.
pub open spec fn net_of(ip: Seq<char>) -> Seq<char> {
    let p = text::pieces(ip, "."@);
    if p.len() == 4 {
        p[0] + "."@ + p[1] + "."@ + p[2] + ".0/24"@
    } else {
        "10.99.0.0/24"@
    }
}

/// The network that the address `ip` is in.
pub fn network_of(ip: &str) -> (r: String)
    ensures
        r@ == net_of(ip@),
{
    proof {
        reveal_strlit(".");
    }
    let p = split(ip, ".");
    assert(p@.len() == p.deep_view().len());
    if p.len() == 4 {
        p[0].to_string().concat(".").concat(p[1]).concat(".").concat(p[2]).concat(".0/24")
    } else {
        "10.99.0.0/24".to_string()
    }
}

/// The server's own address in the tunnel.
pub open spec fn server_ip(wg: WireGuardConfigView) -> Seq<char> {
    text::before(wg.server_wg_ip, "/"@)
}

/// The answer to a registration that gave the address `ip`, or failed, given what the file of the
/// server's public key holds.
pub open spec fn register_answer(
    wg: WireGuardConfigView,
    given: Result<Seq<char>, Seq<char>>,
    file: Option<Seq<char>>,
) -> (i32, Seq<char>) {
    match given {
        Ok(ip) => (
            200,
            "{\"ok\":true,\"assigned_ip\":\""@ + ip + "\",\"server_public_key\":\""@
                + wireguard::server_pubkey(file) + "\",\"server_endpoint\":\""@ + wg.server_endpoint
                + "\",\"server_wg_ip\":\""@ + server_ip(wg) + "\",\"allowed_ips\":\""@ + net_of(
                server_ip(wg),
            ) + "\",\"keepalive\":25}"@,
        ),
        Err(e) => (500, "{\"error\":\""@ + e + "\"}"@),
    }
}

/// Answers a registration that gave the address `ip`, or failed, given what the file of the
/// server's public key holds.
pub fn api_wg_register_worker(
    wg: &WireGuardConfig,
    given: &Result<String, String>,
    file: &Option<String>,
) -> (r: (i32, String))
    ensures
        (r.0, r.1@) == register_answer(
            wg@,
            records::result_text(*given),
            records::opt_text(*file),
        ),
{
    match given {
        Ok(ip) => {
            let own = head(wg.server_wg_ip.as_str(), "/");
            let body = "{\"ok\":true,\"assigned_ip\":\"".to_string().concat(ip.as_str()).concat(
                "\",\"server_public_key\":\"",
            ).concat(wg_server_pubkey(file).as_str()).concat("\",\"server_endpoint\":\"").concat(
                wg.server_endpoint.as_str(),
            ).concat("\",\"server_wg_ip\":\"").concat(own).concat("\",\"allowed_ips\":\"").concat(
                network_of(own).as_str(),
            ).concat("\",\"keepalive\":25}");
            (200, body)
        },
        Err(e) => (500, "{\"error\":\"".to_string().concat(e.as_str()).concat("\"}")),
    }
}

/// What a request asks for.
#[derive(Clone, Copy, PartialEq, Eq, Structural, Debug)]
pub enum Route {
    Status,
    Workers,
    Queue,
    Jobs,
    ServerInfo,
    Peers,
    QueueAdd,
    QueueProcess,
    JobSubmit,
    JobReport,
    PackagesPush,
    GatewaySync,
    Heartbeat,
    Register,
    Ui,
    NotFound,
}

/// What can be asked for with GET.
pub open spec fn get_route(url: Seq<char>) -> Route {
    if url == "/api/status"@ {
        Route::Status
    } else if url == "/api/workers"@ {
        Route::Workers
    } else if url == "/api/queue"@ {
        Route::Queue
    } else if url == "/api/jobs"@ {
        Route::Jobs
    } else if url == "/api/wg/server-info"@ {
        Route::ServerInfo
    } else if url == "/api/wg/peers"@ {
        Route::Peers
    } else if url == "/ui"@ || url == "/"@ {
        Route::Ui
    } else {
        Route::NotFound
    }
}

/// What can be asked for with POST.
pub open spec fn post_route(url: Seq<char>) -> Route {
    if url == "/api/queue/add"@ {
        Route::QueueAdd
    } else if url == "/api/queue/process"@ {
        Route::QueueProcess
    } else if url == "/api/jobs/submit"@ {
        Route::JobSubmit
    } else if url == "/api/jobs/report"@ {
        Route::JobReport
    } else if url == "/api/packages/push"@ {
        Route::PackagesPush
    } else if url == "/api/gateway/sync"@ {
        Route::GatewaySync
    } else if url == "/api/workers/heartbeat"@ {
        Route::Heartbeat
    } else if url == "/api/wg/register-worker"@ {
        Route::Register
    } else {
        Route::NotFound
    }
}

/// What a request asks for.
pub open spec fn route_of(method: Seq<char>, url: Seq<char>) -> Route {
    if method == "GET"@ {
        get_route(url)
    } else if method == "POST"@ {
        post_route(url)
    } else {
        Route::NotFound
    }
}

/// What a request asks for.
pub fn route(method: &str, url: &str) -> (r: Route)
    ensures
        r == route_of(method@, url@),
{
    if same(method, "GET") {
        if same(url, "/api/status") {
            Route::Status
        } else if same(url, "/api/workers") {
            Route::Workers
        } else if same(url, "/api/queue") {
            Route::Queue
        } else if same(url, "/api/jobs") {
            Route::Jobs
        } else if same(url, "/api/wg/server-info") {
            Route::ServerInfo
        } else if same(url, "/api/wg/peers") {
            Route::Peers
        } else if same(url, "/ui") || same(url, "/") {
            Route::Ui
        } else {
            Route::NotFound
        }
    } else if same(method, "POST") {
        if same(url, "/api/queue/add") {
            Route::QueueAdd
        } else if same(url, "/api/queue/process") {
            Route::QueueProcess
        } else if same(url, "/api/jobs/submit") {
            Route::JobSubmit
        } else if same(url, "/api/jobs/report") {
            Route::JobReport
        } else if same(url, "/api/packages/push") {
            Route::PackagesPush
        } else if same(url, "/api/gateway/sync") {
            Route::GatewaySync
        } else if same(url, "/api/workers/heartbeat") {
            Route::Heartbeat
        } else if same(url, "/api/wg/register-worker") {
            Route::Register
        } else {
            Route::NotFound
        }
    } else {
        Route::NotFound
    }
}

/// The type of what is answered under a URL.
pub open spec fn type_of(url: Seq<char>) -> Seq<char> {
    if text::begins(url, "/ui"@) || url == "/"@ {
        "text/html; charset=utf-8"@
    } else {
        "application/json"@
    }
}

/// The type of what is answered under a URL.
pub fn content_type(url: &str) -> (r: String)
    ensures
        r@ == type_of(url@),
{
    if starts_with(url, "/ui") || same(url, "/") {
        "text/html; charset=utf-8".to_string()
    } else {
        "application/json".to_string()
    }
}

proof fn lemma_counted_update(list: Seq<Seq<char>>, i: int, s: Seq<char>)
    requires
        0 <= i < list.len(),
        list[i] != s,
    ensures
        counted(list.update(i, s), s) == counted(list, s) + 1,
    decreases list.len(),
{
    let after = list.update(i, s);
    if i == list.len() - 1 {
        assert(after.drop_last() =~= list.drop_last());
    } else {
        lemma_counted_update(list.drop_last(), i, s);
        assert(after.drop_last() =~= list.drop_last().update(i, s));
    }
}

/// A job that is reported as done is one more completed job in the farm's numbers.
pub proof fn law_done_job_is_counted(f: FarmView, o: JobOutcomeView, i: int)
    requires
        0 <= i < f.jobs.len(),
        f.jobs[i].id == o.id,
        forall|j: int| 0 <= j < f.jobs.len() && j != i ==> (#[trigger] f.jobs[j]).id != o.id,
        f.jobs[i].status != "done"@,
        o.status == "done"@,
    ensures
        counted(job_states((FarmView { jobs: jobs::settled(f.jobs, o), ..f })), "done"@) == counted(
            job_states(f),
            "done"@,
        ) + 1,
{
    let after = FarmView { jobs: jobs::settled(f.jobs, o), ..f };
    assert(job_states(after) =~= job_states(f).update(i, "done"@));
    lemma_counted_update(job_states(f), i, "done"@);
}

proof fn lemma_counted_rows<T>(
    rows: Seq<T>,
    states: Seq<Seq<char>>,
    s: Seq<char>,
    p: spec_fn(T) -> bool,
)
    requires
        states.len() == rows.len(),
        forall|i: int| 0 <= i < rows.len() ==> (#[trigger] states[i] == s <==> p(rows[i])),
    ensures
        counted(states, s) == rows.filter(p).len(),
    decreases rows.len(),
{
    reveal(Seq::filter);
    if rows.len() > 0 {
        assert(states.last() == states[rows.len() - 1]);
        lemma_counted_rows(rows.drop_last(), states.drop_last(), s, p);
    }
}

/// The farm in numbers: the workers that are online, the packages that are pending, the jobs that
/// are queued and those that are done, and the peers, or `-1` where the tunnel is off.
pub proof fn law_status_numbers(wg: bool, f: FarmView)
    ensures
        status_text(wg, f) == "{\"version\":\""@ + "2.0.0"@ + "\",\"online_workers\":"@
            + text::nat_text(f.workers.filter(|w: WorkerRowView| w.status == "online"@).len())
            + ",\"pending_packages\":"@ + text::nat_text(
            f.packages.filter(|p: PackageRowView| p.status == "pending"@).len(),
        ) + ",\"queued_jobs\":"@ + text::nat_text(
            f.jobs.filter(|j: JobRowView| j.status == "queued"@).len(),
        ) + ",\"completed_jobs\":"@ + text::nat_text(
            f.jobs.filter(|j: JobRowView| j.status == "done"@).len(),
        ) + ",\"wg_peers\":"@ + (if wg {
            text::nat_text(f.peers.len())
        } else {
            "-1"@
        }) + "}"@,
{
    lemma_counted_rows(
        f.workers,
        worker_states(f),
        "online"@,
        |w: WorkerRowView| w.status == "online"@,
    );
    lemma_counted_rows(
        f.packages,
        package_states(f),
        "pending"@,
        |p: PackageRowView| p.status == "pending"@,
    );
    lemma_counted_rows(
        f.jobs,
        job_states(f),
        "queued"@,
        |j: JobRowView| j.status == "queued"@,
    );
    lemma_counted_rows(f.jobs, job_states(f), "done"@, |j: JobRowView| j.status == "done"@);
    text::law_signed(1);
    text::law_decimal(0, 1);
    reveal_strlit("-1");
    reveal_strlit("0123456789");
    assert(text::int_text(-1) =~= "-1"@);
}

/// The number behind `pending_packages` in the status is that of the pending packages of the queue:
/// one more pending package raises it by one, and one with any other status changes nothing.
pub proof fn law_pending_packages_are_counted(wg: bool, f: FarmView, p: PackageRowView)
    ensures
        ({
            let n = f.packages.filter(|p: PackageRowView| p.status == "pending"@).len();
            let g = FarmView { packages: f.packages.push(p), ..f };
            &&& text::includes(
                status_text(wg, f),
                ",\"pending_packages\":"@ + text::nat_text(n) + ",\"queued_jobs\":"@,
            )
            &&& p.status == "pending"@ ==> text::includes(
                status_text(wg, g),
                ",\"pending_packages\":"@ + text::nat_text(n + 1) + ",\"queued_jobs\":"@,
            )
            &&& p.status != "pending"@ ==> status_text(wg, g) == status_text(wg, f)
        }),
{
    let g = FarmView { packages: f.packages.push(p), ..f };
    let is = |p: PackageRowView| p.status == "pending"@;
    reveal(Seq::filter);
    assert(g.packages.drop_last() =~= f.packages);
    lemma_packages_behind_their_label(wg, f);
    lemma_packages_behind_their_label(wg, g);
    law_status_numbers(wg, f);
    law_status_numbers(wg, g);
}

proof fn lemma_packages_behind_their_label(wg: bool, f: FarmView)
    ensures
        text::includes(
            status_text(wg, f),
            ",\"pending_packages\":"@ + text::nat_text(
                f.packages.filter(|p: PackageRowView| p.status == "pending"@).len(),
            ) + ",\"queued_jobs\":"@,
        ),
{
    law_status_numbers(wg, f);
    let front = "{\"version\":\""@ + VERSION@ + "\",\"online_workers\":"@ + text::nat_text(
        counted(worker_states(f), "online"@),
    );
    let n = text::nat_text(counted(package_states(f), "pending"@));
    let mid = ",\"pending_packages\":"@ + n + ",\"queued_jobs\":"@;
    let r1 = text::nat_text(counted(job_states(f), "queued"@));
    let r2 = ",\"completed_jobs\":"@;
    let r3 = text::nat_text(counted(job_states(f), "done"@));
    let r4 = ",\"wg_peers\":"@;
    let r5 = text::int_text(
        if wg {
            f.peers.len() as int
        } else {
            -1
        },
    );
    let back = r1 + r2 + r3 + r4 + r5 + "}"@;
    assert(status_text(wg, f) =~= front + mid + back);
    text::lemma_middle_included(front, mid, back);
    lemma_counted_rows(
        f.packages,
        package_states(f),
        "pending"@,
        |p: PackageRowView| p.status == "pending"@,
    );
}

/// One more worker raises the number of those online just where it is online, and one more job
/// those of the queued or of the done just where it is so; what is neither changes nothing.
pub proof fn law_workers_and_jobs_are_counted(
    wg: bool,
    f: FarmView,
    w: WorkerRowView,
    j: JobRowView,
)
    ensures
        w.status != "online"@ ==> status_text(wg, (FarmView { workers: f.workers.push(w), ..f }))
            == status_text(wg, f),
        w.status == "online"@ ==> status_text(wg, (FarmView { workers: f.workers.push(w), ..f }))
            != status_text(wg, f),
        j.status != "queued"@ && j.status != "done"@ ==> status_text(
            wg,
            (FarmView { jobs: f.jobs.push(j), ..f }),
        ) == status_text(wg, f),
        j.status == "queued"@ || j.status == "done"@ ==> status_text(
            wg,
            (FarmView { jobs: f.jobs.push(j), ..f }),
        ) != status_text(wg, f),
{
    let g = FarmView { workers: f.workers.push(w), ..f };
    let h = FarmView { jobs: f.jobs.push(j), ..f };
    assert(worker_states(g).drop_last() =~= worker_states(f));
    assert(package_states(g) =~= package_states(f));
    assert(job_states(g) =~= job_states(f));
    assert(worker_states(h) =~= worker_states(f));
    assert(package_states(h) =~= package_states(f));
    assert(job_states(h).drop_last() =~= job_states(f));
    reveal_strlit("queued");
    reveal_strlit("done");
    assert("queued"@[0] != "done"@[0]);
    if status_text(wg, g) == status_text(wg, f) {
        lemma_status_parts(wg, f, g);
    }
    if status_text(wg, h) == status_text(wg, f) {
        lemma_status_parts(wg, f, h);
    }
}

proof fn lemma_status_parts(wg: bool, f: FarmView, g: FarmView)
    requires
        status_text(wg, f) == status_text(wg, g),
        f.peers == g.peers,
        package_states(f) == package_states(g),
        worker_states(f) == worker_states(g) || job_states(f) == job_states(g),
    ensures
        counted(worker_states(f), "online"@) == counted(worker_states(g), "online"@),
        counted(job_states(f), "queued"@) == counted(job_states(g), "queued"@),
        counted(job_states(f), "done"@) == counted(job_states(g), "done"@),
{
    let end = ",\"wg_peers\":"@;
    let p = text::int_text(
        if wg {
            f.peers.len() as int
        } else {
            -1
        },
    );
    let l1 = ",\"pending_packages\":"@;
    let l2 = ",\"queued_jobs\":"@;
    let l3 = ",\"completed_jobs\":"@;
    let fw = counted(worker_states(f), "online"@);
    let gw = counted(worker_states(g), "online"@);
    let fp = counted(package_states(f), "pending"@);
    let fq = counted(job_states(f), "queued"@);
    let gq = counted(job_states(g), "queued"@);
    let fd = counted(job_states(f), "done"@);
    let gd = counted(job_states(g), "done"@);
    let a0 = "{\"version\":\""@ + VERSION@ + "\",\"online_workers\":"@;
    let a1 = a0 + text::nat_text(fw);
    let b1 = a0 + text::nat_text(gw);
    let a3 = a1 + l1 + text::nat_text(fp);
    let b3 = b1 + l1 + text::nat_text(fp);
    let a5 = a3 + l2 + text::nat_text(fq);
    let b5 = b3 + l2 + text::nat_text(gq);
    let a7 = a5 + l3 + text::nat_text(fd);
    let b7 = b5 + l3 + text::nat_text(gd);
    text::lemma_same_front(a7 + end + p, b7 + end + p, "}"@);
    text::lemma_same_front(a7 + end, b7 + end, p);
    text::lemma_same_front(a7, b7, end);
    text::lemma_nat_text(fw);
    text::lemma_nat_text(gw);
    text::lemma_nat_text(fq);
    text::lemma_nat_text(gq);
    text::lemma_nat_text(fd);
    text::lemma_nat_text(gd);
    if job_states(f) == job_states(g) {
        text::lemma_same_front(a5 + l3, b5 + l3, text::nat_text(fd));
        text::lemma_same_front(a5, b5, l3);
        text::lemma_same_front(a3 + l2, b3 + l2, text::nat_text(fq));
        text::lemma_same_front(a3, b3, l2);
        text::lemma_same_front(a1 + l1, b1 + l1, text::nat_text(fp));
        text::lemma_same_front(a1, b1, l1);
        text::lemma_same_rest(a0, text::nat_text(fw), text::nat_text(gw));
    } else {
        let x = text::nat_text(fq);
        let y = text::nat_text(gq);
        reveal_strlit(",\"completed_jobs\":");
        assert(text::lacks(x, l3[0])) by {
            text::lemma_number_lacks(fq as int, l3[0]);
        }
        assert(text::lacks(y, l3[0])) by {
            text::lemma_number_lacks(gq as int, l3[0]);
        }
        let front = a3 + l2;
        assert(a7 =~= front + (x + l3 + text::nat_text(fd)));
        assert(b7 =~= front + (y + l3 + text::nat_text(gd)));
        text::lemma_same_rest(front, x + l3 + text::nat_text(fd), y + l3 + text::nat_text(gd));
        text::lemma_same_parts(x, y, l3, text::nat_text(fd), text::nat_text(gd));
    }
}

/// What a worker is told of the server: its public key as its file holds it, without the white space
/// around it, its endpoint, its address in the tunnel, and its port; and nothing while the tunnel is
/// off.
pub proof fn law_server_info(wg: WireGuardConfigView, file: Option<Seq<char>>)
    ensures
        server_info(wg, file) == if wg.enabled {
            (
                200i32,
                "{\"enabled\":true,\"public_key\":\""@ + (match file {
                    Some(s) => text::trimmed(s),
                    None => Seq::empty(),
                }) + "\",\"endpoint\":\""@ + wg.server_endpoint + "\",\"server_ip\":\""@
                    + wg.server_wg_ip + "\",\"listen_port\":"@ + text::nat_text(
                    wg.listen_port as nat,
                ) + "}"@,
            )
        } else {
            (404i32, "{\"error\":\"WireGuard not enabled\"}"@)
        },
{
}

/// What the API shows of a peer: its name, its address, its key, and when it was added.
pub proof fn law_peer_line(p: PeerRowView)
    ensures
        peer_line(p) == "{\"name\":\""@ + p.worker_name + "\",\"ip\":\""@ + p.assigned_ip
            + "\",\"public_key\":\""@ + p.public_key + "\",\"added_at\":"@ + text::int_text(
            p.added_at as int,
        ) + "}"@,
{
}

/// Two peers that differ in one thing that is shown have different lines.
pub proof fn law_peer_lines_differ(a: PeerRowView, b: PeerRowView)
    requires
        peer_line(a) == peer_line(b),
    ensures
        (PeerRowView { worker_name: b.worker_name, ..a }) == b ==> a == b,
        (PeerRowView { assigned_ip: b.assigned_ip, ..a }) == b ==> a == b,
        (PeerRowView { public_key: b.public_key, ..a }) == b ==> a == b,
        (PeerRowView { added_at: b.added_at, ..a }) == b ==> a == b,
{
    let a0 = "{\"name\":\""@;
    let a1 = a0 + a.worker_name;
    let a2 = a1 + "\",\"ip\":\""@;
    let a3 = a2 + a.assigned_ip;
    let a4 = a3 + "\",\"public_key\":\""@;
    let a5 = a4 + a.public_key;
    let a6 = a5 + "\",\"added_at\":"@;
    let a7 = a6 + text::int_text(a.added_at as int);
    let a8 = a7 + "}"@;
    let b0 = "{\"name\":\""@;
    let b1 = b0 + b.worker_name;
    let b2 = b1 + "\",\"ip\":\""@;
    let b3 = b2 + b.assigned_ip;
    let b4 = b3 + "\",\"public_key\":\""@;
    let b5 = b4 + b.public_key;
    let b6 = b5 + "\",\"added_at\":"@;
    let b7 = b6 + text::int_text(b.added_at as int);
    let b8 = b7 + "}"@;
    assert(peer_line(a) == a8 && peer_line(b) == b8);
    assert((PeerRowView { worker_name: b.worker_name, ..a }) == b ==> a == b) by {
        if (PeerRowView { worker_name: b.worker_name, ..a }) == b {
            text::lemma_same_front(a7, b7, "}"@);
            text::lemma_same_front(a6, b6, text::int_text(a.added_at as int));
            text::lemma_same_front(a5, b5, "\",\"added_at\":"@);
            text::lemma_same_front(a4, b4, a.public_key);
            text::lemma_same_front(a3, b3, "\",\"public_key\":\""@);
            text::lemma_same_front(a2, b2, a.assigned_ip);
            text::lemma_same_front(a1, b1, "\",\"ip\":\""@);
            text::lemma_same_rest(a0, a.worker_name, b.worker_name);
        }
    }
    assert((PeerRowView { assigned_ip: b.assigned_ip, ..a }) == b ==> a == b) by {
        if (PeerRowView { assigned_ip: b.assigned_ip, ..a }) == b {
            text::lemma_same_front(a7, b7, "}"@);
            text::lemma_same_front(a6, b6, text::int_text(a.added_at as int));
            text::lemma_same_front(a5, b5, "\",\"added_at\":"@);
            text::lemma_same_front(a4, b4, a.public_key);
            text::lemma_same_front(a3, b3, "\",\"public_key\":\""@);
            text::lemma_same_rest(a2, a.assigned_ip, b.assigned_ip);
        }
    }
    assert((PeerRowView { public_key: b.public_key, ..a }) == b ==> a == b) by {
        if (PeerRowView { public_key: b.public_key, ..a }) == b {
            text::lemma_same_front(a7, b7, "}"@);
            text::lemma_same_front(a6, b6, text::int_text(a.added_at as int));
            text::lemma_same_front(a5, b5, "\",\"added_at\":"@);
            text::lemma_same_rest(a4, a.public_key, b.public_key);
        }
    }
    assert((PeerRowView { added_at: b.added_at, ..a }) == b ==> a == b) by {
        if (PeerRowView { added_at: b.added_at, ..a }) == b {
            text::lemma_same_front(a7, b7, "}"@);
            text::lemma_same_rest(a6, text::int_text(a.added_at as int), text::int_text(b.added_at as int));
            text::law_numbers_differ(a.added_at as int, b.added_at as int);
        }
    }
}

/// While the tunnel is on, every peer is shown, who was added first being first; while it is off,
/// none is.
pub proof fn law_peer_listing(wg: WireGuardConfigView, rows: Seq<PeerRowView>, a: int, b: int)
    requires
        0 <= a <= b < rows.len(),
    ensures
        wg.enabled ==> peers_answer(wg, rows) == (200i32, json_text::array(peer_lines(rows))),
        !wg.enabled ==> peers_answer(wg, rows) == (404i32, "{\"error\":\"WireGuard not enabled\"}"@),
        peer_lines(rows).len() == rows.len(),
        peer_lines(rows).contains(peer_line(rows[a])),
        ({
            let x = by_age(rows)[a];
            let y = by_age(rows)[b];
            &&& 0 <= x < rows.len() && 0 <= y < rows.len()
            &&& x == y <==> a == b
            &&& rows[x].added_at <= rows[y].added_at
            &&& rows[x].added_at == rows[y].added_at ==> x <= y
            &&& peer_lines(rows)[a] == peer_line(rows[x])
        }),
{
    let keys = added_times(rows);
    order::law_orders(Seq::empty(), keys);
    let le = order::by_number(keys);
    order::law_ordering(rows.len(), keys.len(), le);
    let order = by_age(rows);
    assert(order.contains(a));
    let m = choose|m: int| 0 <= m < order.len() && order[m] == a;
    assert(peer_lines(rows)[m] == peer_line(rows[a]));
    if a < b {
        assert(le(order[a], order[b]));
        if rows[order[a]].added_at == rows[order[b]].added_at {
            assert(le(order[b], order[a]));
        }
    }
}

/// The network of an address of four parts is that of its first three; anything else stands for
/// `10.99.0.0/24`.
pub proof fn law_network(a: Seq<char>, b: Seq<char>, c: Seq<char>, d: Seq<char>, ip: Seq<char>)
    requires
        text::lacks(a, '.'),
        text::lacks(b, '.'),
        text::lacks(c, '.'),
        text::lacks(d, '.'),
    ensures
        net_of(a + "."@ + (b + "."@ + (c + "."@ + d))) == a + "."@ + b + "."@ + c + ".0/24"@,
        text::pieces(ip, "."@).len() != 4 ==> net_of(ip) == "10.99.0.0/24"@,
{
    reveal_strlit(".");
    text::lemma_first_piece(a, "."@, b + "."@ + (c + "."@ + d));
    text::lemma_first_piece(b, "."@, c + "."@ + d);
    text::lemma_first_piece(c, "."@, d);
    text::lemma_one_piece(d, "."@);
    let p = text::pieces(a + "."@ + (b + "."@ + (c + "."@ + d)), "."@);
    assert(p.len() == 4 && p[0] == a && p[1] == b && p[2] == c);
}

/// The server's own address is what its setting says before the slash.
pub proof fn law_server_ip(wg: WireGuardConfigView, ip: Seq<char>, width: Seq<char>)
    requires
        text::lacks(ip, '/'),
    ensures
        wg.server_wg_ip == ip + "/"@ + width ==> server_ip(wg) == ip,
        wg.server_wg_ip == ip ==> server_ip(wg) == ip,
{
    reveal_strlit("/");
    text::lemma_first_separator(ip, "/"@, width);
    assert((ip + "/"@ + width).take(ip.len() as int) =~= ip);
    text::law_before_and_after(ip, "/"@);
    if text::includes(ip, "/"@) {
        let k = choose|k: int| text::occurs_at(ip, "/"@, k);
        text::lemma_single(ip, "/"@, k);
    }
}

/// What a worker that was let in is told: the address that it was given, the server's public key,
/// endpoint and address, the network that it may reach, and to keep the tunnel alive every 25
/// seconds; and why, where it was not let in.
pub proof fn law_registration_answer(
    wg: WireGuardConfigView,
    ip: Seq<char>,
    why: Seq<char>,
    file: Option<Seq<char>>,
)
    ensures
        register_answer(wg, Ok(ip), file) == (
            200i32,
            "{\"ok\":true,\"assigned_ip\":\""@ + ip + "\",\"server_public_key\":\""@ + (match file {
                Some(s) => text::trimmed(s),
                None => Seq::empty(),
            }) + "\",\"server_endpoint\":\""@ + wg.server_endpoint + "\",\"server_wg_ip\":\""@
                + text::before(wg.server_wg_ip, "/"@) + "\",\"allowed_ips\":\""@ + net_of(
                text::before(wg.server_wg_ip, "/"@),
            ) + "\",\"keepalive\":25}"@,
        ),
        register_answer(wg, Err(why), file) == (500i32, "{\"error\":\""@ + why + "\"}"@),
{
}

/// Which requests are offered: seven to be told, under eight addresses, and eight to do something.
/// Everything else is not found.
pub proof fn law_routes(method: Seq<char>, url: Seq<char>)
    ensures
        ({
            let r = route_of(method, url);
            let get = method == "GET"@;
            let post = method == "POST"@;
            &&& r is Status <==> get && url == "/api/status"@
            &&& r is Workers <==> get && url == "/api/workers"@
            &&& r is Queue <==> get && url == "/api/queue"@
            &&& r is Jobs <==> get && url == "/api/jobs"@
            &&& r is ServerInfo <==> get && url == "/api/wg/server-info"@
            &&& r is Peers <==> get && url == "/api/wg/peers"@
            &&& r is Ui <==> get && (url == "/ui"@ || url == "/"@)
            &&& r is QueueAdd <==> post && url == "/api/queue/add"@
            &&& r is QueueProcess <==> post && url == "/api/queue/process"@
            &&& r is JobSubmit <==> post && url == "/api/jobs/submit"@
            &&& r is JobReport <==> post && url == "/api/jobs/report"@
            &&& r is PackagesPush <==> post && url == "/api/packages/push"@
            &&& r is GatewaySync <==> post && url == "/api/gateway/sync"@
            &&& r is Heartbeat <==> post && url == "/api/workers/heartbeat"@
            &&& r is Register <==> post && url == "/api/wg/register-worker"@
        }),
{
    reveal_strlit("GET");
    reveal_strlit("POST");
    reveal_strlit("/api/status");
    reveal_strlit("/api/workers");
    reveal_strlit("/api/queue");
    reveal_strlit("/api/jobs");
    reveal_strlit("/api/wg/server-info");
    reveal_strlit("/api/wg/peers");
    reveal_strlit("/ui");
    reveal_strlit("/");
    reveal_strlit("/api/queue/add");
    reveal_strlit("/api/queue/process");
    reveal_strlit("/api/jobs/submit");
    reveal_strlit("/api/jobs/report");
    reveal_strlit("/api/packages/push");
    reveal_strlit("/api/gateway/sync");
    reveal_strlit("/api/workers/heartbeat");
    reveal_strlit("/api/wg/register-worker");
    assert("GET"@.len() == 3);
    assert("POST"@.len() == 4);
    assert("/api/status"@.len() == 11);
    assert("/api/workers"@.len() == 12);
    assert("/api/queue"@.len() == 10);
    assert("/api/jobs"@.len() == 9);
    assert("/api/wg/server-info"@.len() == 19);
    assert("/api/wg/peers"@.len() == 13);
    assert("/ui"@.len() == 3);
    assert("/"@.len() == 1);
    assert("/api/queue/add"@.len() == 14);
    assert("/api/queue/process"@.len() == 18);
    assert("/api/jobs/submit"@.len() == 16);
    assert("/api/jobs/report"@.len() == 16);
    assert("/api/packages/push"@.len() == 18);
    assert("/api/gateway/sync"@.len() == 17);
    assert("/api/workers/heartbeat"@.len() == 22);
    assert("/api/wg/register-worker"@.len() == 23);
    assert("/api/jobs/submit"@[10] != "/api/jobs/report"@[10]);
    assert("/api/queue/process"@[5] != "/api/packages/push"@[5]);
}

/// The dashboard is a page, and everything else that is answered is JSON.
pub proof fn law_content_types(url: Seq<char>, rest: Seq<char>)
    ensures
        type_of("/ui"@ + rest) == "text/html; charset=utf-8"@,
        type_of("/"@) == "text/html; charset=utf-8"@,
        !text::begins(url, "/ui"@) && url != "/"@ ==> type_of(url) == "application/json"@,
{
    text::law_begins_and_ends("/ui"@ + rest, "/ui"@);
}

} // verus!
