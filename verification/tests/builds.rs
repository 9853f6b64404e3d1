use smech_farm::builds::{cmd_run_jobs, start_builds, BuildRun, BuildStage};
use smech_farm::work::{Effect, Query, Reply, Step};

const ADDR: &str = "farm:7734";

fn reported(body: &str) -> Option<Query> {
    Some(Query::Post(ADDR.to_string(), "/api/jobs/report".to_string(), body.to_string()))
}

fn heard() -> Reply {
    Reply::Http(Ok("{\"ok\":true}".to_string()))
}

fn listing(names: &[&str]) -> (BuildRun, Step) {
    let (run, _) = cmd_run_jobs(ADDR, start_builds(), Reply::Begin);
    let (run, _) = cmd_run_jobs(ADDR, run, Reply::Text(Some("w1".to_string())));
    let names: Vec<String> = names.iter().map(|n| n.to_string()).collect();
    cmd_run_jobs(ADDR, run, Reply::Names(Some(names)))
}

fn rename(name: &str) -> Option<Query> {
    Some(Query::Rename(
        format!("/srv/smech-farm/packages/jobs/{}", name),
        format!("/srv/smech-farm/packages/jobs/{}.w1", name),
    ))
}

#[test]
fn hidden_files_are_passed_over() {
    let (run, step) = listing(&[".a", ".b", "7-x.tar"]);
    assert_eq!(run.at, 2);
    assert_eq!(step.ask, rename("7-x.tar"));
    let line = "[smech-farm-worker] picked up job: 7-x.tar\n".to_string();
    assert_eq!(step.effects, vec![Effect::Report(line)]);
}

#[test]
fn a_worker_rests_when_nothing_is_left() {
    let (run, step) = listing(&[".a"]);
    assert_eq!(run.stage, BuildStage::Listing);
    assert_eq!(step.effects, vec![Effect::Sleep(3)]);
    let dir = "/srv/smech-farm/packages/jobs".to_string();
    assert_eq!(step.ask, Some(Query::List(dir)));
    let (run, step) = cmd_run_jobs(ADDR, run, Reply::Names(None));
    assert_eq!(run.stage, BuildStage::Listing);
    assert_eq!(step.effects, vec![Effect::Sleep(3)]);
}

#[test]
fn a_job_that_another_worker_took_is_left() {
    let (run, _) = listing(&["1-a", "2-b"]);
    let (run, step) = cmd_run_jobs(ADDR, run, Reply::Renamed(false));
    assert_eq!(run.at, 1);
    assert_eq!(step.ask, rename("2-b"));
}

#[test]
fn a_job_that_was_taken_is_built() {
    let (run, _) = listing(&["1-a", "2-b"]);
    let (run, step) = cmd_run_jobs(ADDR, run, Reply::Renamed(true));
    match step.ask {
        Some(Query::Run(c)) => {
            assert_eq!(c.words, vec!["icecc", "make", "-C", "/srv/smech-farm/packages/jobs"]);
        }
        _ => panic!("nothing is built"),
    }
    let (run, step) = cmd_run_jobs(ADDR, run, Reply::Status(Some(true)));
    assert_eq!(step.effects, vec![Effect::Report("[smech-farm-worker] job 1-a done\n".to_string())]);
    assert_eq!(run.stage, BuildStage::Reporting);
    assert_eq!(
        step.ask,
        reported("{\"job_id\":1,\"status\":\"done\",\"worker_id\":\"w1\"}")
    );
    let (run, step) = cmd_run_jobs(ADDR, run, heard());
    assert_eq!(step.ask, rename("2-b"));
    let (run, _) = cmd_run_jobs(ADDR, run, Reply::Renamed(true));
    let (run, step) = cmd_run_jobs(ADDR, run, Reply::Status(Some(false)));
    assert_eq!(step.effects[0], Effect::Report("[smech-farm-worker] job 2-b failed\n".to_string()));
    assert_eq!(
        step.ask,
        reported("{\"job_id\":2,\"status\":\"failed\",\"worker_id\":\"w1\"}")
    );
    let (run, step) = cmd_run_jobs(ADDR, run, heard());
    assert_eq!(run.stage, BuildStage::Listing);
    assert_eq!(step.effects, vec![Effect::Sleep(3)]);
}

#[test]
fn a_job_is_unpacked_where_the_first_way_cannot_be_started() {
    let (run, _) = listing(&["1-a"]);
    let (run, _) = cmd_run_jobs(ADDR, run, Reply::Renamed(true));
    let (run, step) = cmd_run_jobs(ADDR, run, Reply::Status(None));
    match step.ask {
        Some(Query::Run(c)) => assert_eq!(
            c.words,
            vec!["sh", "-c", "cd /tmp && tar xf '/srv/smech-farm/packages/jobs/1-a.w1' && make"]
        ),
        _ => panic!("nothing is built"),
    }
    let (_, step) = cmd_run_jobs(ADDR, run, Reply::Status(None));
    assert_eq!(step.effects[0], Effect::Report("[smech-farm-worker] job 1-a failed\n".to_string()));
    assert_eq!(
        step.ask,
        reported("{\"job_id\":1,\"status\":\"failed\",\"worker_id\":\"w1\"}")
    );
}

#[test]
fn a_report_that_does_not_get_through_is_not_the_end() {
    let (run, _) = listing(&["1-a", "2-b"]);
    let (run, _) = cmd_run_jobs(ADDR, run, Reply::Renamed(true));
    let (run, _) = cmd_run_jobs(ADDR, run, Reply::Status(Some(true)));
    let (run, step) = cmd_run_jobs(ADDR, run, Reply::Http(Err("down".to_string())));
    let line = "[smech-farm-worker] report on job 1-a failed: down\n".to_string();
    assert_eq!(step.effects[0], Effect::Report(line));
    assert_eq!(run.at, 1);
    assert_eq!(step.ask, rename("2-b"));
}

#[test]
fn a_file_without_a_number_is_reported_without_one() {
    let (run, _) = listing(&["x.tar"]);
    let (run, _) = cmd_run_jobs(ADDR, run, Reply::Renamed(true));
    let (_, step) = cmd_run_jobs(ADDR, run, Reply::Status(Some(true)));
    assert_eq!(
        step.ask,
        reported("{\"job_id\":null,\"status\":\"done\",\"worker_id\":\"w1\"}")
    );
}

#[test]
fn each_build_that_ends_is_reported_once() {
    let replies = vec![
        Reply::Renamed(true),
        Reply::Status(Some(true)),
        heard(),
        Reply::Renamed(false),
        Reply::Renamed(true),
        Reply::Status(None),
        Reply::Status(Some(false)),
        Reply::Http(Err("down".to_string())),
    ];
    let (mut run, _) = listing(&["1-a", ".h", "2-b", "3-c"]);
    let mut sent: Vec<Query> = Vec::new();
    for reply in replies {
        let (next, step) = cmd_run_jobs(ADDR, run, reply);
        run = next;
        if let Some(Query::Post(a, p, b)) = step.ask {
            sent.push(Query::Post(a, p, b));
        }
    }
    assert_eq!(
        sent,
        vec![
            reported("{\"job_id\":1,\"status\":\"done\",\"worker_id\":\"w1\"}").unwrap(),
            reported("{\"job_id\":3,\"status\":\"failed\",\"worker_id\":\"w1\"}").unwrap(),
        ]
    );
}

#[test]
fn the_work_on_jobs_begins_with_a_name() {
    let (run, step) = cmd_run_jobs(ADDR, start_builds(), Reply::Begin);
    assert_eq!(run.stage, BuildStage::Naming);
    assert_eq!(step.ask, Some(Query::WorkerId));
    let line =
        "[smech-farm-worker] polling for compile jobs in /srv/smech-farm/packages/jobs\n".to_string();
    assert_eq!(step.effects, vec![Effect::Report(line)]);
}
