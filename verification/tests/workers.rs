use smech_farm::records::{WorkerChange, WorkerHeartbeat, WorkerRow};
use smech_farm::workers::{api_worker_heartbeat, api_workers, expire_stale_workers};

fn row(id: &str, host: &str, seen: i64, status: &str) -> WorkerRow {
    WorkerRow {
        id: id.to_string(),
        hostname: host.to_string(),
        ip_addr: "10.0.0.1".to_string(),
        cores: 4,
        last_seen: seen,
        status: status.to_string(),
    }
}

fn beat(id: &str) -> WorkerHeartbeat {
    WorkerHeartbeat {
        id: id.to_string(),
        hostname: "box".to_string(),
        ip_addr: "10.0.0.9".to_string(),
        cores: u32::MAX,
    }
}

#[test]
fn a_heartbeat_inserts_or_updates() {
    let rows = vec![row("w1", "old", 1, "offline")];
    let (status, body, change) = api_worker_heartbeat(&rows, Some(beat("w1")), 50);
    assert_eq!((status, body.as_str()), (200, "{\"ok\":true}"));
    match change {
        Some(WorkerChange::Update(w)) => {
            assert_eq!(w.hostname, "box");
            assert_eq!(w.cores, 4294967295);
            assert_eq!(w.last_seen, 50);
            assert_eq!(w.status, "online");
        }
        _ => panic!("not an update"),
    }
    let (_, _, change) = api_worker_heartbeat(&rows, Some(beat("w2")), 50);
    assert!(matches!(change, Some(WorkerChange::Insert(w)) if w.id == "w2"));
}

#[test]
fn a_heartbeat_that_cannot_be_read_is_refused() {
    let (status, body, change) = api_worker_heartbeat(&Vec::new(), None, 50);
    assert_eq!((status, body.as_str()), (400, "{\"error\":\"bad request\"}"));
    assert_eq!(change, None);
}

#[test]
fn workers_that_are_silent_for_longer_than_half_a_minute_expire() {
    let rows = vec![
        row("late", "a", 69, "online"),
        row("edge", "b", 70, "online"),
        row("gone", "c", 1, "offline"),
    ];
    let marks = expire_stale_workers(&rows, 100);
    assert_eq!(marks.ids, vec!["late".to_string()]);
    assert_eq!(marks.status, "offline");
    assert!(expire_stale_workers(&rows, 99).ids.is_empty());
}

#[test]
fn expiry_does_not_overflow() {
    let rows = vec![row("w", "a", i64::MIN, "online")];
    assert!(expire_stale_workers(&rows, i64::MIN).ids.is_empty());
    assert_eq!(expire_stale_workers(&rows, i64::MAX).ids.len(), 1);
}

#[test]
fn workers_are_shown_by_host_name() {
    let rows = vec![row("2", "b", 5, "online"), row("1", "a", 6, "offline")];
    assert_eq!(
        api_workers(&rows),
        (
            200,
            "[{\"id\":\"1\",\"hostname\":\"a\",\"ip\":\"10.0.0.1\",\"cores\":4,\"last_seen\":6,\"status\":\"offline\"},\
             {\"id\":\"2\",\"hostname\":\"b\",\"ip\":\"10.0.0.1\",\"cores\":4,\"last_seen\":5,\"status\":\"online\"}]"
                .to_string()
        )
    );
    assert_eq!(api_workers(&Vec::new()), (200, "[]".to_string()));
}
