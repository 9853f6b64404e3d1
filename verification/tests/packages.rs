use smech_farm::packages::{
    api_queue, api_queue_add, download_cmd, package_file, package_url, process_package_queue,
    push_packages_to_workers, queue_addition, start_queue, QueueRun, QueueStage,
};
use smech_farm::records::{NewPackage, PackageRow, QueueRequest};
use smech_farm::work::{Effect, Query, Reply, Step};

fn row(id: i64, package: &str, worker: &str, status: &str, at: i64) -> PackageRow {
    PackageRow {
        id,
        package_name: package.to_string(),
        version: "1".to_string(),
        worker_id: worker.to_string(),
        status: status.to_string(),
        requested_at: at,
    }
}

fn request(package: &str, worker: &str) -> QueueRequest {
    QueueRequest {
        package_name: package.to_string(),
        version: None,
        worker_id: worker.to_string(),
    }
}

/// Works the queue off where the places in `good` have every package, and tells all that was done.
fn run_queue(rows: Vec<PackageRow>, good: &[usize]) -> Vec<Effect> {
    let mut rows = Some(rows);
    let mut done: Vec<Effect> = Vec::new();
    let mut run: QueueRun = start_queue();
    let mut reply = Reply::Begin;
    loop {
        let (next, step) = process_package_queue(run, reply);
        run = next;
        done.extend(step.effects);
        reply = match step.ask {
            None => return done,
            Some(Query::Packages) => Reply::Packages(rows.take().unwrap()),
            Some(Query::Run(_)) => Reply::Status(Some(good.contains(&run.source))),
            Some(Query::Exists(_)) => Reply::Found(true),
            Some(Query::Clock) => Reply::Time(9),
            Some(_) => panic!("unexpected"),
        };
    }
}

#[test]
fn a_package_joins_the_queue_once_per_worker() {
    let rows = vec![row(1, "kio", "w1", "pending", 5)];
    assert_eq!(queue_addition(&rows, request("kio", "w1"), 6), None);
    let added = queue_addition(&rows, request("kio", "w2"), 6);
    assert_eq!(
        added,
        Some(NewPackage {
            package_name: "kio".to_string(),
            version: "".to_string(),
            worker_id: "w2".to_string(),
            status: "pending".to_string(),
            requested_at: 6,
        })
    );
}

#[test]
fn only_a_failed_package_can_be_asked_for_again() {
    for status in ["pending", "downloading", "available"] {
        let rows = vec![row(1, "kio", "w1", status, 5)];
        assert!(queue_addition(&rows, request("kio", "w1"), 6).is_none());
    }
    let rows = vec![row(1, "kio", "w1", "failed", 5)];
    assert!(queue_addition(&rows, request("kio", "w1"), 6).is_some());
}

#[test]
fn requests_for_packages_are_answered() {
    let rows = vec![row(1, "kio", "w1", "available", 5)];
    let (status, body, add) = api_queue_add(&rows, None, 6);
    assert_eq!((status, body.as_str()), (400, "{\"error\":\"bad request\"}"));
    assert_eq!(add, None);
    let (status, body, add) = api_queue_add(&rows, Some(request("kio", "w1")), 6);
    assert_eq!((status, body.as_str()), (200, "{\"ok\":true,\"msg\":\"already queued\"}"));
    assert_eq!(add, None);
    let mut req = request("kwin", "w1");
    req.version = Some("6.7".to_string());
    let (status, body, add) = api_queue_add(&rows, Some(req), 6);
    assert_eq!((status, body.as_str()), (200, "{\"ok\":true,\"msg\":\"queued\"}"));
    assert_eq!(add.unwrap().version, "6.7");
}

#[test]
fn the_queue_is_shown_newest_first() {
    let rows = vec![
        row(1, "a", "w", "pending", 5),
        row(2, "b", "w", "failed", 9),
        row(3, "c", "w", "pending", 5),
    ];
    let (status, body) = api_queue(&rows);
    assert_eq!(status, 200);
    assert_eq!(
        body,
        "[{\"id\":2,\"package\":\"b\",\"version\":\"1\",\"worker\":\"w\",\"status\":\"failed\",\"requested_at\":9},\
         {\"id\":1,\"package\":\"a\",\"version\":\"1\",\"worker\":\"w\",\"status\":\"pending\",\"requested_at\":5},\
         {\"id\":3,\"package\":\"c\",\"version\":\"1\",\"worker\":\"w\",\"status\":\"pending\",\"requested_at\":5}]"
    );
    assert_eq!(api_queue(&Vec::new()), (200, "[]".to_string()));
}

#[test]
fn a_hundred_packages_are_shown() {
    let rows: Vec<PackageRow> = (0..150).map(|i| row(i, "p", "w", "failed", i)).collect();
    let (_, body) = api_queue(&rows);
    assert_eq!(body.matches("\"id\":").count(), 100);
    assert!(body.starts_with("[{\"id\":149,"));
    assert!(body.contains("{\"id\":50,"));
    assert!(!body.contains("{\"id\":49,"));
}

#[test]
fn the_places_of_a_package() {
    assert_eq!(package_file("kio"), "/srv/smech-farm/packages/kio.tar.xz");
    assert_eq!(
        package_url("kio", 0),
        "https://download.kde.org/stable/frameworks/6.27/kio-6.27.0.tar.xz"
    );
    assert_eq!(
        package_url("kio", 1),
        "https://download.kde.org/stable/plasma/6.7.2/kio-6.7.2.tar.xz"
    );
    assert_eq!(
        package_url("kio", 2),
        "https://github.com/kio/kio/releases/latest/download/kio.tar.xz"
    );
    let words = download_cmd("kio", 1).words;
    assert_eq!(&words[..6], ["curl", "-sfL", "--max-time", "120", "-o", "/srv/smech-farm/packages/kio.tar.xz"]);
    assert_eq!(words[6], package_url("kio", 1));
}

#[test]
fn a_package_is_downloaded_from_the_first_place_that_has_it() {
    let rows = vec![row(4, "kio", "w", "failed", 1), row(5, "kwin", "w", "pending", 2)];
    let done = run_queue(rows, &[2]);
    assert_eq!(
        done,
        vec![
            Effect::Report("[smech-farmd] downloading package: kwin 1\n".to_string()),
            Effect::MarkPackage(5, "downloading".to_string()),
            Effect::MakeDir("/srv/smech-farm/packages".to_string()),
            Effect::CompletePackage(5, "available".to_string(), 9),
            Effect::Report("[smech-farmd] package kwin now on NFS share\n".to_string()),
        ]
    );
}

#[test]
fn a_package_that_no_place_has_fails() {
    let rows = vec![row(5, "kwin", "w", "pending", 2), row(6, "kio", "w", "pending", 2)];
    let done = run_queue(rows, &[]);
    assert_eq!(done[3], Effect::CompletePackage(5, "failed".to_string(), 9));
    assert_eq!(done[4], Effect::Report("[smech-farmd] failed to download kwin\n".to_string()));
    assert_eq!(done[6], Effect::MarkPackage(6, "downloading".to_string()));
    assert_eq!(done.len(), 10);
}

#[test]
fn a_download_that_leaves_no_file_does_not_count() {
    let (run, _) = process_package_queue(start_queue(), Reply::Begin);
    let rows = vec![row(1, "kio", "w", "pending", 2)];
    let (run, _) = process_package_queue(run, Reply::Packages(rows));
    let (run, step) = process_package_queue(run, Reply::Status(Some(true)));
    assert_eq!(step.ask, Some(Query::Exists(package_file("kio"))));
    let (run, step) = process_package_queue(run, Reply::Found(false));
    assert_eq!(step.ask, Some(Query::Run(download_cmd("kio", 1))));
    assert_eq!(run.stage, QueueStage::Fetching);
    let (_, step) = process_package_queue(run, Reply::Status(None));
    assert_eq!(step.ask, Some(Query::Run(download_cmd("kio", 2))));
}

#[test]
fn twenty_packages_are_taken_at_a_time() {
    let rows: Vec<PackageRow> = (0..30).map(|i| row(i, "p", "w", "pending", i)).collect();
    let done = run_queue(rows, &[0]);
    assert_eq!(done.len(), 100);
    assert!(done.contains(&Effect::MarkPackage(19, "downloading".to_string())));
    assert!(!done.contains(&Effect::MarkPackage(20, "downloading".to_string())));
    assert!(run_queue(Vec::new(), &[0]).is_empty());
}

#[test]
fn workers_are_told_of_packages_only_where_there_are_some() {
    let none = vec![row(1, "kio", "w", "pending", 5)];
    assert_eq!(push_packages_to_workers(&none, 42), Step::stop());
    let some = vec![row(1, "kio", "w", "pending", 5), row(2, "kio", "v", "available", 5)];
    let step = push_packages_to_workers(&some, 42);
    assert_eq!(
        step.effects,
        vec![Effect::WriteText(
            "/srv/smech-farm/packages/PACKAGES_READY".to_string(),
            "42".to_string()
        )]
    );
    assert_eq!(step.ask, None);
}

/// The queue once `done` was carried out.
fn carry_out(mut rows: Vec<PackageRow>, done: &[Effect]) -> Vec<PackageRow> {
    for effect in done {
        let (id, status) = match effect {
            Effect::MarkPackage(id, status) => (*id, status),
            Effect::CompletePackage(id, status, _) => (*id, status),
            _ => continue,
        };
        for r in rows.iter_mut() {
            if r.id == id {
                r.status = status.clone();
            }
        }
    }
    rows
}

fn short_queue() -> Vec<PackageRow> {
    vec![
        row(1, "a", "w", "pending", 1),
        row(2, "b", "w", "available", 2),
        row(3, "c", "w", "pending", 3),
        row(4, "d", "w", "failed", 4),
    ]
}

#[test]
fn a_short_queue_is_emptied() {
    let after = carry_out(short_queue(), &run_queue(short_queue(), &[1]));
    let states: Vec<&str> = after.iter().map(|r| r.status.as_str()).collect();
    assert_eq!(states, vec!["available", "available", "available", "failed"]);
    let after = carry_out(short_queue(), &run_queue(short_queue(), &[]));
    let states: Vec<&str> = after.iter().map(|r| r.status.as_str()).collect();
    assert_eq!(states, vec!["failed", "available", "failed", "failed"]);
}

#[test]
fn no_package_is_ever_on_its_way_to_one_worker_twice() {
    let mut rows: Vec<PackageRow> = Vec::new();
    for n in 0..60i64 {
        let package = format!("p{}", n % 3);
        let worker = format!("w{}", n % 2);
        if let Some(p) = queue_addition(&rows, request(&package, &worker), n) {
            rows.push(row(n, &p.package_name, &p.worker_id, "pending", n));
        }
        if n % 7 == 0 {
            let same: Vec<PackageRow> = rows
                .iter()
                .map(|r| row(r.id, &r.package_name, &r.worker_id, &r.status, r.requested_at))
                .collect();
            let good: &[usize] = if n % 2 == 0 { &[0] } else { &[] };
            let done = run_queue(same, good);
            rows = carry_out(rows, &done);
        }
        for (i, a) in rows.iter().enumerate() {
            for b in &rows[i + 1..] {
                let both = a.status != "failed" && b.status != "failed";
                assert!(!both || a.package_name != b.package_name || a.worker_id != b.worker_id);
            }
        }
    }
}

#[test]
fn a_place_may_fail_for_one_package_and_work_for_the_next() {
    let rows = vec![
        row(1, "kio", "w1", "pending", 1),
        row(2, "kio", "w2", "pending", 2),
        row(3, "kio", "w3", "pending", 3),
    ];
    let replies = vec![
        Reply::Begin,
        Reply::Packages(rows),
        Reply::Status(Some(false)),
        Reply::Status(None),
        Reply::Status(Some(true)),
        Reply::Found(false),
        Reply::Time(7),
        Reply::Status(Some(true)),
        Reply::Found(true),
        Reply::Time(8),
        Reply::Status(Some(true)),
        Reply::Found(false),
        Reply::Status(Some(true)),
        Reply::Found(true),
        Reply::Time(11),
    ];
    let mut run = start_queue();
    let mut ended: Vec<(i64, String, i64)> = Vec::new();
    let mut asked: Option<Query> = None;
    for reply in replies {
        let (next, step) = process_package_queue(run, reply);
        run = next;
        asked = step.ask;
        for effect in step.effects {
            if let Effect::CompletePackage(id, status, at) = effect {
                ended.push((id, status, at));
            }
        }
    }
    assert_eq!(asked, None);
    assert_eq!(run.stage, QueueStage::Done);
    assert_eq!(
        ended,
        vec![
            (1, "failed".to_string(), 7),
            (2, "available".to_string(), 8),
            (3, "available".to_string(), 11),
        ]
    );
}
