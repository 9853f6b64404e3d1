//! The workers: who has been heard from, and who has been silent for too long.

use vstd::prelude::*;

use crate::json_text;
use crate::json_text::json_array;
use crate::order;
use crate::order::order_by_text;
use crate::records;
use crate::records::{
    WorkerChange, WorkerChangeView, WorkerHeartbeat, WorkerHeartbeatView, WorkerMarks,
    WorkerMarksView, WorkerRow, WorkerRowView,
};
use crate::text;
use crate::text::{integer, same};

verus! {

/// For how many seconds a worker may be silent.
pub const SILENCE: i64 = 30;

/// The status of a worker that has been silent for too long.
pub const OFFLINE: &'static str = "offline";

/// Whether the worker `id` is known.
pub open spec fn known(rows: Seq<WorkerRowView>, id: Seq<char>) -> bool {
    exists|i: int| 0 <= i < rows.len() && (#[trigger] rows[i]).id == id
}

/// The row of a worker that was heard from at `now`.
pub open spec fn heard(hb: WorkerHeartbeatView, now: i64) -> WorkerRowView {
    WorkerRowView {
        id: hb.id,
        hostname: hb.hostname,
        ip_addr: hb.ip_addr,
        cores: hb.cores as i64,
        last_seen: now,
        status: "online"@,
    }
}

/// The answer to a heartbeat: an HTTP status, a body, and what changes. `None` stands for a
/// heartbeat that could not be read.
pub open spec fn heartbeat_answer(
    rows: Seq<WorkerRowView>,
    hb: Option<WorkerHeartbeatView>,
    now: i64,
) -> (i32, Seq<char>, Option<WorkerChangeView>) {
    match hb {
        None => (400, "{\"error\":\"bad request\"}"@, None),
        Some(h) => (
            200,
            "{\"ok\":true}"@,
            Some(
                if known(rows, h.id) {
                    WorkerChangeView::Update(heard(h, now))
                } else {
                    WorkerChangeView::Insert(heard(h, now))
                },
            ),
        ),
    }
}

fn is_known(rows: &Vec<WorkerRow>, id: &str) -> (r: bool)
    ensures
        r == known(records::views(rows@), id@),
{
    let ghost all = records::views(rows@);
    for i in 0..rows.len()
        invariant
            all == records::views(rows@),
            forall|j: int| 0 <= j < i ==> (#[trigger] all[j]).id != id@,
    {
        assert(all[i as int] == rows@[i as int]@);
        if same(rows[i].id.as_str(), id) {
            return true;
        }
    }
    false
}

/// Answers a heartbeat, and says what it changes: the worker is online, and was seen now.
pub fn api_worker_heartbeat(rows: &Vec<WorkerRow>, hb: Option<WorkerHeartbeat>, now: i64) -> (r: (
    i32,
    String,
    Option<WorkerChange>,
))
    ensures
        (r.0, r.1@, records::opt_view(r.2)) == heartbeat_answer(
            records::views(rows@),
            records::opt_view(hb),
            now,
        ),
{
    match hb {
        None => (400, "{\"error\":\"bad request\"}".to_string(), None),
        Some(h) => {
            let old = is_known(rows, h.id.as_str());
            let row = WorkerRow {
                id: h.id,
                hostname: h.hostname,
                ip_addr: h.ip_addr,
                cores: h.cores as i64,
                last_seen: now,
                status: "online".to_string(),
            };
            let change = if old {
                WorkerChange::Update(row)
            } else {
                WorkerChange::Insert(row)
            };
            (200, "{\"ok\":true}".to_string(), Some(change))
        },
    }
}

/// The list of workers after a change.
pub open spec fn applied(rows: Seq<WorkerRowView>, c: WorkerChangeView) -> Seq<WorkerRowView> {
    match c {
        WorkerChangeView::Insert(row) => rows.push(row),
        WorkerChangeView::Update(row) => Seq::new(
            rows.len(),
            |i: int|
                if rows[i].id == row.id {
                    row
                } else {
                    rows[i]
                },
        ),
    }
}

/// Whether the worker counts as online though it has been silent for too long.
pub open spec fn stale(row: WorkerRowView, now: i64) -> bool {
    row.last_seen < now - SILENCE && row.status == "online"@
}

/// The workers that have been silent for too long.
pub open spec fn stale_ids(rows: Seq<WorkerRowView>, now: i64) -> Seq<Seq<char>>
    decreases rows.len(),
{
    if rows.len() == 0 {
        Seq::empty()
    } else if stale(rows.last(), now) {
        stale_ids(rows.drop_last(), now).push(rows.last().id)
    } else {
        stale_ids(rows.drop_last(), now)
    }
}

/// What is to be marked: the workers that have been silent for too long, as offline.
pub open spec fn stale_marks(rows: Seq<WorkerRowView>, now: i64) -> WorkerMarksView {
    WorkerMarksView { ids: stale_ids(rows, now), status: OFFLINE@ }
}

/// What is to be marked: the workers that have been silent for too long, as offline.
pub fn expire_stale_workers(rows: &Vec<WorkerRow>, now: i64) -> (r: WorkerMarks)
    ensures
        r@ == stale_marks(records::views(rows@), now),
{
    let ghost all = records::views(rows@);
    let mut out: Vec<String> = Vec::new();
    assert(out.deep_view() =~= stale_ids(all.take(0), now));
    for i in 0..rows.len()
        invariant
            all == records::views(rows@),
            out.deep_view() == stale_ids(all.take(i as int), now),
    {
        assert(all[i as int] == rows@[i as int]@);
        assert(all.take(i + 1).drop_last() =~= all.take(i as int));
        let cutoff: i128 = now as i128 - SILENCE as i128;
        if (rows[i].last_seen as i128) < cutoff && same(rows[i].status.as_str(), "online") {
            let ghost was = out.deep_view();
            let id = rows[i].id.as_str().to_string();
            out.push(id);
            assert(out.deep_view() =~= was.push(id@));
        }
    }
    assert(all.take(rows@.len() as int) =~= all);
    WorkerMarks { ids: out, status: OFFLINE.to_string() }
}

/// The list of workers once they are marked.
pub open spec fn silenced(rows: Seq<WorkerRowView>, marks: WorkerMarksView) -> Seq<WorkerRowView> {
    Seq::new(
        rows.len(),
        |i: int|
            if marks.ids.contains(rows[i].id) {
                WorkerRowView { status: marks.status, ..rows[i] }
            } else {
                rows[i]
            },
    )
}

/// A worker as the API shows it.
pub open spec fn worker_line(w: WorkerRowView) -> Seq<char> {
    "{\"id\":\""@ + w.id + "\",\"hostname\":\""@ + w.hostname + "\",\"ip\":\""@ + w.ip_addr
        + "\",\"cores\":"@ + text::int_text(w.cores as int) + ",\"last_seen\":"@ + text::int_text(
        w.last_seen as int,
    ) + ",\"status\":\""@ + w.status + "\"}"@
}

/// The host names of the workers.
pub open spec fn hostnames(rows: Seq<WorkerRowView>) -> Seq<Seq<char>> {
    Seq::new(rows.len(), |i: int| rows[i].hostname)
}

/// The workers as the API shows them: by host name.
pub open spec fn worker_lines(rows: Seq<WorkerRowView>) -> Seq<Seq<char>> {
    order::lines(
        rows,
        order::ordering(rows.len(), order::by_text(hostnames(rows))),
        rows.len(),
        |w: WorkerRowView| worker_line(w),
    )
}

fn worker_entry(w: &WorkerRow) -> (r: String)
    ensures
        r@ == worker_line(w@),
{
    "{\"id\":\"".to_string().concat(w.id.as_str()).concat("\",\"hostname\":\"").concat(
        w.hostname.as_str(),
    ).concat("\",\"ip\":\"").concat(w.ip_addr.as_str()).concat("\",\"cores\":").concat(
        integer(w.cores).as_str(),
    ).concat(",\"last_seen\":").concat(integer(w.last_seen).as_str()).concat(
        ",\"status\":\"",
    ).concat(w.status.as_str()).concat("\"}")
}

/// Shows the workers, by host name.
pub fn api_workers(rows: &Vec<WorkerRow>) -> (r: (i32, String))
    ensures
        (r.0, r.1@) == (200i32, json_text::array(worker_lines(records::views(rows@)))),
{
    let ghost all = records::views(rows@);
    let mut keys: Vec<&str> = Vec::new();
    assert(keys.deep_view() =~= hostnames(all).take(0));
    for i in 0..rows.len()
        invariant
            all == records::views(rows@),
            keys.deep_view() == hostnames(all).take(i as int),
    {
        assert(all[i as int] == rows@[i as int]@);
        let ghost was = keys.deep_view();
        let key = rows[i].hostname.as_str();
        keys.push(key);
        assert(keys.deep_view() =~= was.push(key@));
        assert(was.push(key@) =~= hostnames(all).take(i + 1));
    }
    assert(keys.deep_view() =~= hostnames(all));
    let order = order_by_text(&keys);
    let n = order.len();
    let mut entries: Vec<String> = Vec::new();
    proof {
        assert(keys@.len() == keys.deep_view().len());
        assert(order::ints(order@).len() == n);
    }
    for i in 0..n
        invariant
            all == records::views(rows@),
            n == order@.len(),
            n == worker_lines(all).len(),
            order::ints(order@) == order::ordering(all.len(), order::by_text(hostnames(all))),
            forall|k: int| 0 <= k < order@.len() ==> #[trigger] order@[k] < rows@.len(),
            entries.deep_view() == worker_lines(all).take(i as int),
    {
        let k = order[i];
        assert(order::ints(order@)[i as int] == k);
        assert(all[k as int] == rows@[k as int]@);
        let entry = worker_entry(&rows[k]);
        assert(worker_lines(all)[i as int] == entry@);
        let ghost was = entries.deep_view();
        entries.push(entry);
        assert(entries.deep_view() =~= was.push(entry@));
        assert(was.push(entry@) =~= worker_lines(all).take(i + 1));
    }
    assert(worker_lines(all).take(n as int) =~= worker_lines(all));
    (200, json_array(&entries))
}

/// Whether no two workers have one `id`.
pub open spec fn unique_ids(rows: Seq<WorkerRowView>) -> bool {
    forall|i: int, j: int|
        0 <= i < j < rows.len() ==> (#[trigger] rows[i]).id != (#[trigger] rows[j]).id
}

/// After a heartbeat the worker stands in the list once, as it said, online, and seen now; every
/// other worker stands there as before.
pub proof fn law_heartbeat(rows: Seq<WorkerRowView>, hb: WorkerHeartbeatView, now: i64)
    requires
        unique_ids(rows),
    ensures
        ({
            let after = applied(rows, heartbeat_answer(rows, Some(hb), now).2->0);
            &&& unique_ids(after)
            &&& after.contains(heard(hb, now))
            &&& forall|w: WorkerRowView|
                w.id != hb.id ==> (#[trigger] after.contains(w) <==> rows.contains(w))
        }),
{
    let after = applied(rows, heartbeat_answer(rows, Some(hb), now).2->0);
    let h = heard(hb, now);
    if known(rows, hb.id) {
        let k = choose|k: int| 0 <= k < rows.len() && (#[trigger] rows[k]).id == hb.id;
        assert(after[k] == h);
        assert forall|w: WorkerRowView| w.id != hb.id implies (after.contains(w) <==> rows.contains(
            w,
        )) by {
            if after.contains(w) {
                let i = choose|i: int| 0 <= i < after.len() && after[i] == w;
                assert(rows[i] == w);
            }
            if rows.contains(w) {
                let i = choose|i: int| 0 <= i < rows.len() && rows[i] == w;
                assert(after[i] == w);
            }
        }
        assert forall|i: int, j: int| 0 <= i < j < after.len() implies (#[trigger] after[i]).id != (
        #[trigger] after[j]).id by {
            assert(after[i].id == rows[i].id);
            assert(after[j].id == rows[j].id);
        }
    } else {
        assert(after[rows.len() as int] == h);
        assert forall|w: WorkerRowView| w.id != hb.id implies (after.contains(w) <==> rows.contains(
            w,
        )) by {
            if after.contains(w) {
                let i = choose|i: int| 0 <= i < after.len() && after[i] == w;
                assert(rows[i] == w);
            }
            if rows.contains(w) {
                let i = choose|i: int| 0 <= i < rows.len() && rows[i] == w;
                assert(after[i] == w);
            }
        }
    }
}

proof fn lemma_stale_ids(rows: Seq<WorkerRowView>, now: i64, id: Seq<char>)
    ensures
        stale_ids(rows, now).contains(id) <==> exists|i: int|
            0 <= i < rows.len() && stale(#[trigger] rows[i], now) && rows[i].id == id,
    decreases rows.len(),
{
    if rows.len() > 0 {
        let rest = rows.drop_last();
        let n = rows.len() - 1;
        lemma_stale_ids(rest, now, id);
        if stale_ids(rows, now).contains(id) {
            let k = choose|k: int| 0 <= k < stale_ids(rows, now).len() && stale_ids(rows, now)[k] == id;
            if stale(rows.last(), now) && k == stale_ids(rest, now).len() {
                assert(stale(rows[n], now) && rows[n].id == id);
            } else {
                assert(stale_ids(rest, now)[k] == id);
                let i = choose|i: int|
                    0 <= i < rest.len() && stale(#[trigger] rest[i], now) && rest[i].id == id;
                assert(stale(rows[i], now) && rows[i].id == id);
            }
        }
        if exists|i: int| 0 <= i < rows.len() && stale(#[trigger] rows[i], now) && rows[i].id == id {
            let i = choose|i: int|
                0 <= i < rows.len() && stale(#[trigger] rows[i], now) && rows[i].id == id;
            if i < n {
                assert(stale(rest[i], now) && rest[i].id == id);
                let k = choose|k: int|
                    0 <= k < stale_ids(rest, now).len() && stale_ids(rest, now)[k] == id;
                assert(stale_ids(rows, now)[k] == id);
            } else {
                assert(stale_ids(rows, now)[stale_ids(rest, now).len() as int] == id);
            }
        }
    }
}

/// Marking the workers that `expire_stale_workers` names leaves none that counts as online though it
/// has been silent for too long, and changes no other worker.
pub proof fn law_expiry(rows: Seq<WorkerRowView>, now: i64, i: int)
    requires
        unique_ids(rows),
        0 <= i < rows.len(),
    ensures
        silenced(rows, stale_marks(rows, now))[i] == (if stale(rows[i], now) {
            (WorkerRowView { status: "offline"@, ..rows[i] })
        } else {
            rows[i]
        }),
        !stale(silenced(rows, stale_marks(rows, now))[i], now),
{
    lemma_stale_ids(rows, now, rows[i].id);
    reveal_strlit("online");
    reveal_strlit("offline");
    assert("online"@.len() != "offline"@.len());
}

/// A worker that was heard from in the last half minute is not marked as offline.
pub proof fn law_heard_from_stays(
    rows: Seq<WorkerRowView>,
    hb: WorkerHeartbeatView,
    seen: i64,
    now: i64,
)
    requires
        unique_ids(rows),
        now - seen <= SILENCE,
    ensures
        ({
            let after = applied(rows, heartbeat_answer(rows, Some(hb), seen).2->0);
            &&& !stale_ids(after, now).contains(hb.id)
            &&& silenced(after, stale_marks(after, now)).contains(heard(hb, seen))
        }),
{
    law_heartbeat(rows, hb, seen);
    let after = applied(rows, heartbeat_answer(rows, Some(hb), seen).2->0);
    lemma_stale_ids(after, now, hb.id);
    let k = choose|k: int| 0 <= k < after.len() && after[k] == heard(hb, seen);
    assert(silenced(after, stale_marks(after, now))[k] == heard(hb, seen));
}

/// One that has been silent for longer is.
pub proof fn law_silent_goes_offline(
    rows: Seq<WorkerRowView>,
    hb: WorkerHeartbeatView,
    seen: i64,
    now: i64,
)
    requires
        unique_ids(rows),
        now - seen > SILENCE,
    ensures
        ({
            let after = applied(rows, heartbeat_answer(rows, Some(hb), seen).2->0);
            &&& stale_ids(after, now).contains(hb.id)
            &&& silenced(after, stale_marks(after, now)).contains(
                (WorkerRowView { status: "offline"@, ..heard(hb, seen) }),
            )
        }),
{
    law_heartbeat(rows, hb, seen);
    let after = applied(rows, heartbeat_answer(rows, Some(hb), seen).2->0);
    lemma_stale_ids(after, now, hb.id);
    let k = choose|k: int| 0 <= k < after.len() && after[k] == heard(hb, seen);
    assert(stale(after[k], now));
    assert(silenced(after, stale_marks(after, now))[k] == (WorkerRowView {
        status: "offline"@,
        ..heard(hb, seen)
    }));
}

/// The API shows every worker once, by host name.
pub proof fn law_worker_listing(rows: Seq<WorkerRowView>)
    ensures
        ({
            let order = order::ordering(rows.len(), order::by_text(hostnames(rows)));
            &&& worker_lines(rows).len() == rows.len()
            &&& order.len() == rows.len()
            &&& forall|v: int| 0 <= v < rows.len() <==> order.contains(v)
            &&& forall|a: int, b: int|
                0 <= a < b < rows.len() ==> #[trigger] order[a] != #[trigger] order[b]
                    && order::text_le(rows[order[a]].hostname, rows[order[b]].hostname)
            &&& forall|a: int|
                0 <= a < rows.len() ==> #[trigger] worker_lines(rows)[a] == worker_line(
                    rows[order[a]],
                )
        }),
{
    let keys = hostnames(rows);
    order::law_orders(keys, Seq::empty());
    order::law_ordering(rows.len(), keys.len(), order::by_text(keys));
    let order = order::ordering(rows.len(), order::by_text(keys));
    assert forall|a: int, b: int| 0 <= a < b < rows.len() implies #[trigger] order[a]
        != #[trigger] order[b] && order::text_le(
        rows[order[a]].hostname,
        rows[order[b]].hostname,
    ) by {
        assert(order::by_text(keys)(order[a], order[b]));
        assert(0 <= order[a] < rows.len());
        assert(0 <= order[b] < rows.len());
    }
}

/// What a heartbeat stores: a row with the worker's own name, host name, address and number of
/// processors, seen at the given time, and online. It is a new row just where the worker has none.
pub proof fn law_heartbeat_row(rows: Seq<WorkerRowView>, hb: WorkerHeartbeatView, now: i64)
    ensures
        ({
            let row = WorkerRowView {
                id: hb.id,
                hostname: hb.hostname,
                ip_addr: hb.ip_addr,
                cores: hb.cores as i64,
                last_seen: now,
                status: "online"@,
            };
            let there = exists|i: int| 0 <= i < rows.len() && (#[trigger] rows[i]).id == hb.id;
            heartbeat_answer(rows, Some(hb), now) == (
                200i32,
                "{\"ok\":true}"@,
                Some(
                    if there {
                        WorkerChangeView::Update(row)
                    } else {
                        WorkerChangeView::Insert(row)
                    },
                ),
            )
        }),
        heartbeat_answer(rows, None, now) == (
            400i32,
            "{\"error\":\"bad request\"}"@,
            None::<WorkerChangeView>,
        ),
{
}

/// After a heartbeat the list shows the worker with what the heartbeat said: two heartbeats that
/// differ leave different rows.
pub proof fn law_heartbeats_differ(
    rows: Seq<WorkerRowView>,
    a: WorkerHeartbeatView,
    b: WorkerHeartbeatView,
    s: i64,
    t: i64,
)
    requires
        heartbeat_answer(rows, Some(a), s).2 == heartbeat_answer(rows, Some(b), t).2,
    ensures
        a == b,
        s == t,
{
}

/// Which workers are marked: just those that count as online and were last seen more than 30
/// seconds ago; and they are marked as offline.
pub proof fn law_who_is_marked(rows: Seq<WorkerRowView>, now: i64, id: Seq<char>)
    ensures
        stale_marks(rows, now).status == "offline"@,
        stale_marks(rows, now).ids.contains(id) <==> exists|i: int|
            0 <= i < rows.len() && (#[trigger] rows[i]).id == id && rows[i].status == "online"@ && now
                - rows[i].last_seen > 30,
{
    lemma_stale_ids(rows, now, id);
    if exists|i: int| 0 <= i < rows.len() && stale(#[trigger] rows[i], now) && rows[i].id == id {
        let i = choose|i: int|
            0 <= i < rows.len() && stale(#[trigger] rows[i], now) && rows[i].id == id;
        assert(rows[i].id == id && rows[i].status == "online"@ && now - rows[i].last_seen > 30);
    }
    if exists|i: int|
        0 <= i < rows.len() && (#[trigger] rows[i]).id == id && rows[i].status == "online"@ && now
            - rows[i].last_seen > 30 {
        let i = choose|i: int|
            0 <= i < rows.len() && (#[trigger] rows[i]).id == id && rows[i].status == "online"@ && now
                - rows[i].last_seen > 30;
        assert(stale(rows[i], now));
    }
}

/// No worker is marked twice for one row, and the marks stand in the order of the rows: a row at the
/// end adds its own mark, or none.
pub proof fn law_marks_follow_rows(rows: Seq<WorkerRowView>, w: WorkerRowView, now: i64)
    ensures
        stale_marks(Seq::empty(), now).ids.len() == 0,
        stale_marks(rows.push(w), now).ids == if w.status == "online"@ && now - w.last_seen > 30 {
            stale_marks(rows, now).ids.push(w.id)
        } else {
            stale_marks(rows, now).ids
        },
{
    assert(rows.push(w).drop_last() =~= rows);
}

/// What the API shows of a worker: its name, its host name, its address, its number of processors,
/// when it was last seen, and its own status.
pub proof fn law_worker_line(w: WorkerRowView)
    ensures
        worker_line(w) == "{\"id\":\""@ + w.id + "\",\"hostname\":\""@ + w.hostname
            + "\",\"ip\":\""@ + w.ip_addr + "\",\"cores\":"@ + text::int_text(w.cores as int)
            + ",\"last_seen\":"@ + text::int_text(w.last_seen as int) + ",\"status\":\""@ + w.status
            + "\"}"@,
{
}

/// Two workers that differ in one thing that is shown have different lines.
pub proof fn law_worker_lines_differ(a: WorkerRowView, b: WorkerRowView)
    requires
        worker_line(a) == worker_line(b),
    ensures
        (WorkerRowView { id: b.id, ..a }) == b ==> a == b,
        (WorkerRowView { hostname: b.hostname, ..a }) == b ==> a == b,
        (WorkerRowView { ip_addr: b.ip_addr, ..a }) == b ==> a == b,
        (WorkerRowView { cores: b.cores, ..a }) == b ==> a == b,
        (WorkerRowView { last_seen: b.last_seen, ..a }) == b ==> a == b,
        (WorkerRowView { status: b.status, ..a }) == b ==> a == b,
{
    let a0 = "{\"id\":\""@;
    let a1 = a0 + a.id;
    let a2 = a1 + "\",\"hostname\":\""@;
    let a3 = a2 + a.hostname;
    let a4 = a3 + "\",\"ip\":\""@;
    let a5 = a4 + a.ip_addr;
    let a6 = a5 + "\",\"cores\":"@;
    let a7 = a6 + text::int_text(a.cores as int);
    let a8 = a7 + ",\"last_seen\":"@;
    let a9 = a8 + text::int_text(a.last_seen as int);
    let a10 = a9 + ",\"status\":\""@;
    let a11 = a10 + a.status;
    let a12 = a11 + "\"}"@;
    let b0 = "{\"id\":\""@;
    let b1 = b0 + b.id;
    let b2 = b1 + "\",\"hostname\":\""@;
    let b3 = b2 + b.hostname;
    let b4 = b3 + "\",\"ip\":\""@;
    let b5 = b4 + b.ip_addr;
    let b6 = b5 + "\",\"cores\":"@;
    let b7 = b6 + text::int_text(b.cores as int);
    let b8 = b7 + ",\"last_seen\":"@;
    let b9 = b8 + text::int_text(b.last_seen as int);
    let b10 = b9 + ",\"status\":\""@;
    let b11 = b10 + b.status;
    let b12 = b11 + "\"}"@;
    assert(worker_line(a) == a12 && worker_line(b) == b12);
    assert((WorkerRowView { id: b.id, ..a }) == b ==> a == b) by {
        if (WorkerRowView { id: b.id, ..a }) == b {
            text::lemma_same_front(a11, b11, "\"}"@);
            text::lemma_same_front(a10, b10, a.status);
            text::lemma_same_front(a9, b9, ",\"status\":\""@);
            text::lemma_same_front(a8, b8, text::int_text(a.last_seen as int));
            text::lemma_same_front(a7, b7, ",\"last_seen\":"@);
            text::lemma_same_front(a6, b6, text::int_text(a.cores as int));
            text::lemma_same_front(a5, b5, "\",\"cores\":"@);
            text::lemma_same_front(a4, b4, a.ip_addr);
            text::lemma_same_front(a3, b3, "\",\"ip\":\""@);
            text::lemma_same_front(a2, b2, a.hostname);
            text::lemma_same_front(a1, b1, "\",\"hostname\":\""@);
            text::lemma_same_rest(a0, a.id, b.id);
        }
    }
    assert((WorkerRowView { hostname: b.hostname, ..a }) == b ==> a == b) by {
        if (WorkerRowView { hostname: b.hostname, ..a }) == b {
            text::lemma_same_front(a11, b11, "\"}"@);
            text::lemma_same_front(a10, b10, a.status);
            text::lemma_same_front(a9, b9, ",\"status\":\""@);
            text::lemma_same_front(a8, b8, text::int_text(a.last_seen as int));
            text::lemma_same_front(a7, b7, ",\"last_seen\":"@);
            text::lemma_same_front(a6, b6, text::int_text(a.cores as int));
            text::lemma_same_front(a5, b5, "\",\"cores\":"@);
            text::lemma_same_front(a4, b4, a.ip_addr);
            text::lemma_same_front(a3, b3, "\",\"ip\":\""@);
            text::lemma_same_rest(a2, a.hostname, b.hostname);
        }
    }
    assert((WorkerRowView { ip_addr: b.ip_addr, ..a }) == b ==> a == b) by {
        if (WorkerRowView { ip_addr: b.ip_addr, ..a }) == b {
            text::lemma_same_front(a11, b11, "\"}"@);
            text::lemma_same_front(a10, b10, a.status);
            text::lemma_same_front(a9, b9, ",\"status\":\""@);
            text::lemma_same_front(a8, b8, text::int_text(a.last_seen as int));
            text::lemma_same_front(a7, b7, ",\"last_seen\":"@);
            text::lemma_same_front(a6, b6, text::int_text(a.cores as int));
            text::lemma_same_front(a5, b5, "\",\"cores\":"@);
            text::lemma_same_rest(a4, a.ip_addr, b.ip_addr);
        }
    }
    assert((WorkerRowView { cores: b.cores, ..a }) == b ==> a == b) by {
        if (WorkerRowView { cores: b.cores, ..a }) == b {
            text::lemma_same_front(a11, b11, "\"}"@);
            text::lemma_same_front(a10, b10, a.status);
            text::lemma_same_front(a9, b9, ",\"status\":\""@);
            text::lemma_same_front(a8, b8, text::int_text(a.last_seen as int));
            text::lemma_same_front(a7, b7, ",\"last_seen\":"@);
            text::lemma_same_rest(a6, text::int_text(a.cores as int), text::int_text(b.cores as int));
            text::law_numbers_differ(a.cores as int, b.cores as int);
        }
    }
    assert((WorkerRowView { last_seen: b.last_seen, ..a }) == b ==> a == b) by {
        if (WorkerRowView { last_seen: b.last_seen, ..a }) == b {
            text::lemma_same_front(a11, b11, "\"}"@);
            text::lemma_same_front(a10, b10, a.status);
            text::lemma_same_front(a9, b9, ",\"status\":\""@);
            text::lemma_same_rest(a8, text::int_text(a.last_seen as int), text::int_text(b.last_seen as int));
            text::law_numbers_differ(a.last_seen as int, b.last_seen as int);
        }
    }
    assert((WorkerRowView { status: b.status, ..a }) == b ==> a == b) by {
        if (WorkerRowView { status: b.status, ..a }) == b {
            text::lemma_same_front(a11, b11, "\"}"@);
            text::lemma_same_rest(a10, a.status, b.status);
        }
    }
}

} // verus!
