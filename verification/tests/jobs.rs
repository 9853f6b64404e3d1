use smech_farm::base64::base64_encode;
use smech_farm::jobs::{
    api_job_report, api_job_submit, api_jobs, job_number, job_stored, submit_body,
};
use smech_farm::records::{JobOutcome, JobReport, JobRow, JobSubmit};
use smech_farm::work::Effect;

fn job(id: i64, at: i64, worker: Option<&str>) -> JobRow {
    JobRow {
        id,
        filename: "x.tar".to_string(),
        submitted_by: "me".to_string(),
        status: "queued".to_string(),
        submitted_at: at,
        worker_id: worker.map(|w| w.to_string()),
    }
}

#[test]
fn a_submitted_file_reaches_the_workers() {
    let bytes: Vec<u8> = (0..=255).collect();
    let req = JobSubmit {
        filename: "x.tar".to_string(),
        content: base64_encode(&bytes),
        submitted_by: "me".to_string(),
    };
    let job = api_job_submit(Some(req), 8).unwrap();
    assert_eq!(job.content, bytes);
    assert_eq!(job.submitted_at, 8);
    assert_eq!(job.status, "queued");
    let (step, status, body) = job_stored(job, 12);
    assert_eq!((status, body.as_str()), (200, "{\"ok\":true,\"job_id\":12}"));
    assert_eq!(
        step.effects,
        vec![
            Effect::MakeDir("/srv/smech-farm/packages/jobs".to_string()),
            Effect::WriteBytes("/srv/smech-farm/packages/jobs/12-x.tar".to_string(), bytes),
        ]
    );
}

#[test]
fn a_submission_that_cannot_be_read_is_refused() {
    let refused = api_job_submit(None, 8).unwrap_err();
    assert_eq!(refused, (400, "{\"error\":\"bad request\"}".to_string()));
}

#[test]
fn the_body_of_a_submission() {
    assert_eq!(
        submit_body("a.tar", &b"foo".to_vec(), "me"),
        "{\"filename\":\"a.tar\",\"content\":\"Zm9v\",\"submitted_by\":\"me\"}"
    );
}

#[test]
fn jobs_are_shown_newest_first() {
    let rows = vec![job(1, 5, None), job(2, 7, Some("w1"))];
    assert_eq!(
        api_jobs(&rows),
        (
            200,
            "[{\"id\":2,\"filename\":\"x.tar\",\"submitted_by\":\"me\",\"status\":\"queued\",\"submitted_at\":7,\"worker\":\"w1\"},\
             {\"id\":1,\"filename\":\"x.tar\",\"submitted_by\":\"me\",\"status\":\"queued\",\"submitted_at\":5,\"worker\":null}]"
                .to_string()
        )
    );
}

#[test]
fn a_hundred_jobs_are_shown() {
    let rows: Vec<JobRow> = (0..120).map(|i| job(i, i, None)).collect();
    let (_, body) = api_jobs(&rows);
    assert_eq!(body.matches("\"id\":").count(), 100);
    assert!(body.starts_with("[{\"id\":119,"));
}

#[test]
fn two_jobs_never_share_a_file() {
    let path = |id: i64, name: &str| {
        let req = JobSubmit {
            filename: name.to_string(),
            content: String::new(),
            submitted_by: String::new(),
        };
        let (step, _, _) = job_stored(api_job_submit(Some(req), 0).unwrap(), id);
        match &step.effects[1] {
            Effect::WriteBytes(path, _) => path.clone(),
            _ => panic!("no file"),
        }
    };
    assert_ne!(path(1, "2-x"), path(12, "x"));
    assert_ne!(path(1, "1-x"), path(11, "x"));
}

fn report(job: Option<i64>, status: &str) -> Option<JobReport> {
    Some(JobReport {
        job_id: job,
        status: status.to_string(),
        worker_id: "w1".to_string(),
    })
}

#[test]
fn a_report_settles_its_job() {
    let rows = vec![job(1, 5, None), job(2, 7, None)];
    for status in ["done", "failed"] {
        let (code, body, outcome) = api_job_report(&rows, report(Some(2), status), 9);
        assert_eq!((code, body.as_str()), (200, "{\"ok\":true}"));
        let expected = JobOutcome {
            id: 2,
            status: status.to_string(),
            worker_id: "w1".to_string(),
            completed_at: 9,
        };
        assert_eq!(outcome, Some(expected));
    }
}

#[test]
fn a_report_that_fits_no_job_is_refused() {
    let rows = vec![job(1, 5, None)];
    let unknown = (404, "{\"error\":\"unknown job\"}".to_string(), None);
    assert_eq!(api_job_report(&rows, report(Some(2), "done"), 9), unknown);
    assert_eq!(api_job_report(&rows, report(None, "failed"), 9), unknown);
    let bad = (400, "{\"error\":\"bad request\"}".to_string(), None);
    assert_eq!(api_job_report(&rows, report(Some(1), "queued"), 9), bad);
    assert_eq!(api_job_report(&rows, None, 9), bad);
}

#[test]
fn a_file_says_which_job_it_is() {
    assert_eq!(job_number("12-x.tar"), Some(12));
    assert_eq!(job_number("12-a-b.tar.w1"), Some(12));
    assert_eq!(job_number("007-x"), Some(7));
    assert_eq!(job_number("0-"), Some(0));
    assert_eq!(job_number("12"), None);
    assert_eq!(job_number("-x"), None);
    assert_eq!(job_number("1a-x"), None);
    assert_eq!(job_number("+1-x"), None);
    assert_eq!(job_number("9223372036854775807-x"), Some(i64::MAX));
    assert_eq!(job_number("9223372036854775808-x"), None);
    assert_eq!(job_number("99999999999999999999999999999999999999999-x"), None);
}
