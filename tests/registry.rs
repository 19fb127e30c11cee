use netbench::messages::{StatusMessage, WorkerStatus, WorkerStatusJobDetails};
use netbench::registry::{topic_change, TopicChange, WorkerRegistry, WorkerRow};

fn online(ts: i64, topics: &[&str]) -> StatusMessage {
    StatusMessage::lifecycle("w1".to_string(), topics.iter().map(|t| t.to_string()).collect(), WorkerStatus::Online, ts)
}

fn offline(ts: i64) -> StatusMessage {
    StatusMessage::lifecycle("w1".to_string(), vec![], WorkerStatus::Offline, ts)
}

fn row(r: &WorkerRegistry) -> WorkerRow {
    r.get_row("w1").unwrap()
}

fn links(r: &WorkerRegistry) -> Vec<(String, String)> {
    let mut v = r.worker_topics.clone();
    v.sort();
    v
}

#[test]
fn online_then_heartbeat() {
    let mut r = WorkerRegistry::new();
    r.handle_status(online(100, &["all", "eu"]));
    r.handle_status(StatusMessage::heartbeat("w1".to_string(), 103));
    let w = row(&r);
    assert_eq!(w.status, WorkerStatus::Online);
    assert_eq!(w.started_at, Some(100));
    assert_eq!(w.last_seen, 103);
    assert_eq!(links(&r), vec![("w1".to_string(), "all".to_string()), ("w1".to_string(), "eu".to_string())]);
}

#[test]
fn heartbeat_before_first_online_is_not_kept() {
    let mut r = WorkerRegistry::new();
    r.handle_status(StatusMessage::heartbeat("w1".to_string(), 103));
    assert!(r.get_row("w1").is_none());
    r.handle_status(online(100, &["all"]));
    let w = row(&r);
    assert_eq!(w.status, WorkerStatus::Online);
    assert_eq!(w.started_at, Some(100));
    assert_eq!(w.last_seen, 100);
}

#[test]
fn last_seen_is_the_later_report_in_either_order() {
    let mut a = WorkerRegistry::new();
    a.handle_status(online(100, &["all"]));
    let mut b = WorkerRegistry::new();
    b.handle_status(online(100, &["all"]));
    let job = WorkerStatusJobDetails { run_id: 5, job_id: 6, sub_job_id: 7, worker_name: "w1".to_string() };
    let job2 = WorkerStatusJobDetails { run_id: 5, job_id: 6, sub_job_id: 7, worker_name: "w1".to_string() };
    a.handle_status(StatusMessage::job("w1".to_string(), Some(job), 110));
    a.handle_status(StatusMessage::heartbeat("w1".to_string(), 120));
    b.handle_status(StatusMessage::heartbeat("w1".to_string(), 120));
    b.handle_status(StatusMessage::job("w1".to_string(), Some(job2), 110));
    assert_eq!(row(&a).last_seen, 120);
    assert_eq!(row(&b).last_seen, 120);
    assert_eq!(row(&a).job_id, Some(6));
    assert_eq!(row(&b).job_id, None);
}

#[test]
fn offline_twice_equals_once() {
    let mut r = WorkerRegistry::new();
    r.handle_status(online(100, &["all", "eu"]));
    r.handle_status(offline(200));
    let once_row = row(&r);
    let once_links = links(&r);
    let once_topics = r.topics.clone();
    r.handle_status(offline(200));
    assert_eq!(row(&r), once_row);
    assert_eq!(links(&r), once_links);
    assert_eq!(r.topics, once_topics);
    assert_eq!(once_row.status, WorkerStatus::Offline);
    assert_eq!(once_row.shutdown_at, Some(200));
    assert_eq!(once_row.started_at, Some(100));
    assert!(once_links.is_empty());
}

#[test]
fn stale_lifecycle_report_leaves_the_row() {
    let mut r = WorkerRegistry::new();
    r.handle_status(offline(200));
    r.handle_status(online(150, &["all"]));
    let w = row(&r);
    assert_eq!(w.status, WorkerStatus::Offline);
    assert_eq!(w.last_seen, 200);
    assert_eq!(w.started_at, None);
    assert_eq!(links(&r), vec![("w1".to_string(), "all".to_string())]);
}

#[test]
fn late_offline_keeps_the_row_but_drops_the_links() {
    let mut r = WorkerRegistry::new();
    r.handle_status(online(300, &["all", "eu"]));
    r.handle_status(offline(200));
    let w = row(&r);
    assert_eq!(w.status, WorkerStatus::Online);
    assert_eq!(w.last_seen, 300);
    assert!(r.worker_topics.is_empty());
}

#[test]
fn topic_change_follows_the_lifecycle_status() {
    assert_eq!(topic_change(WorkerStatus::Online), TopicChange::Record);
    assert_eq!(topic_change(WorkerStatus::Offline), TopicChange::Drop);
}

#[test]
fn lifecycle_update_reports_whether_it_applied() {
    let mut r = WorkerRegistry::new();
    let name = "w1".to_string();
    assert!(r.update_worker_status(&name, WorkerStatus::Online, 100));
    assert!(!r.update_worker_status(&name, WorkerStatus::Offline, 100));
    assert!(r.update_worker_status(&name, WorkerStatus::Offline, 101));
}

#[test]
fn job_report_sets_and_clears_the_current_job() {
    let mut r = WorkerRegistry::new();
    r.handle_status(online(100, &["all"]));
    let job = WorkerStatusJobDetails { run_id: 5, job_id: 6, sub_job_id: 7, worker_name: "w1".to_string() };
    r.handle_status(StatusMessage::job("w1".to_string(), Some(job), 110));
    assert_eq!(row(&r).job_id, Some(6));
    r.handle_status(StatusMessage::job("w1".to_string(), None, 120));
    assert_eq!(row(&r).job_id, None);
    assert_eq!(row(&r).last_seen, 120);
}
