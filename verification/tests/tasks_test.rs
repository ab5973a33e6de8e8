use ai_coder_interface_rs::ai::types::ProgressStats;
use ai_coder_interface_rs::ai::types::TaskStatus;
use ai_coder_interface_rs::utils::tasks::Task;
use ai_coder_interface_rs::utils::tasks::TaskId;
use ai_coder_interface_rs::utils::tasks::TaskManager;
use ai_coder_interface_rs::utils::tasks::TaskType;

#[test]
fn create_task_registers_a_pending_task() {
    let mut m = TaskManager::new();
    let id = m.create_task(String::from("demo"), TaskType::AIGeneration, 1_000);
    let task = m.get_task(id).expect("task must exist");
    assert_eq!(task.status, TaskStatus::Pending);
    assert_eq!(task.name, "demo");
    assert_eq!(task.task_type, TaskType::AIGeneration);
    assert_eq!(task.created_at, 1_000);
    assert!(task.started_at.is_none());
    assert!(task.completed_at.is_none());
}

#[test]
fn unknown_ids_are_reported_not_found() {
    let mut m = TaskManager::new();
    let ghost_id = TaskId(42);
    assert!(m.get_task(ghost_id).is_none());
    assert!(!m.update_task_status(ghost_id, TaskStatus::Running, 5));
    assert!(!m.update_task_progress(ghost_id, 10, 5));
    assert!(!m.cancel_task(ghost_id, 5));
}

#[test]
fn running_stamps_started_at_once() {
    let mut m = TaskManager::new();
    let id = m.create_task(String::from("work"), TaskType::Other, 100);
    assert!(m.update_task_status(id, TaskStatus::Running, 250));
    assert_eq!(m.get_task(id).unwrap().started_at, Some(250));
    // a second Running transition does not restamp the start
    assert!(m.update_task_status(id, TaskStatus::Running, 900));
    assert_eq!(m.get_task(id).unwrap().started_at, Some(250));
}

#[test]
fn terminal_status_is_never_overwritten() {
    // Once a task is terminal, no later update changes it.
    let mut m = TaskManager::new();
    let id = m.create_task(String::from("one"), TaskType::Other, 0);
    assert!(m.update_task_status(id, TaskStatus::Running, 10));
    assert!(m.update_task_status(id, TaskStatus::Completed, 20));
    let done = m.get_task(id).unwrap();
    assert_eq!(done.status, TaskStatus::Completed);
    assert_eq!(done.completed_at, Some(20));

    // the id is still known, so the calls report true, but nothing moves
    assert!(m.update_task_status(id, TaskStatus::Cancelled, 30));
    assert!(m.update_task_status(id, TaskStatus::Failed, 40));
    assert!(m.update_task_status(id, TaskStatus::Running, 50));
    assert!(m.cancel_task(id, 60));
    let after = m.get_task(id).unwrap();
    assert_eq!(after.status, TaskStatus::Completed);
    assert_eq!(after.completed_at, Some(20));
}

#[test]
fn cancel_marks_an_active_task_cancelled() {
    let mut m = TaskManager::new();
    let id = m.create_task(String::from("to-cancel"), TaskType::AIGeneration, 0);
    assert!(m.update_task_status(id, TaskStatus::Running, 1));
    assert!(m.cancel_task(id, 2));
    let t = m.get_task(id).unwrap();
    assert_eq!(t.status, TaskStatus::Cancelled);
    assert_eq!(t.completed_at, Some(2));
}

#[test]
fn cleanup_never_removes_active_tasks() {
    // Pending and Running tasks survive a sweep regardless of age.
    let mut m = TaskManager::new();
    let pending = m.create_task(String::from("pending"), TaskType::Other, 0);
    let running = m.create_task(String::from("running"), TaskType::Other, 0);
    assert!(m.update_task_status(running, TaskStatus::Running, 1));
    let done = m.create_task(String::from("done"), TaskType::Other, 0);
    assert!(m.update_task_status(done, TaskStatus::Completed, 2));

    // hours later: the completed task is far past the 30-minute window
    m.cleanup_old_tasks(100_000_000);
    assert!(m.get_task(pending).is_some());
    assert!(m.get_task(running).is_some());
    assert!(m.get_task(done).is_none());
}

#[test]
fn cleanup_keeps_recently_completed_tasks() {
    let mut m = TaskManager::new();
    let done = m.create_task(String::from("fresh"), TaskType::Other, 0);
    assert!(m.update_task_status(done, TaskStatus::Completed, 1_000));
    // 29 minutes later the task is still within the retention window
    m.cleanup_old_tasks(1_000 + 29 * 60 * 1_000);
    assert!(m.get_task(done).is_some());
    // 31 minutes after completion it is evicted
    m.cleanup_old_tasks(1_000 + 31 * 60 * 1_000);
    assert!(m.get_task(done).is_none());
}

#[test]
fn active_and_recent_snapshots() {
    let mut m = TaskManager::new();
    let a = m.create_task(String::from("a"), TaskType::Other, 0);
    let b = m.create_task(String::from("b"), TaskType::Other, 0);
    assert!(m.update_task_status(b, TaskStatus::Running, 5));
    let c = m.create_task(String::from("c"), TaskType::Other, 0);
    assert!(m.update_task_status(c, TaskStatus::Failed, 10));

    let active = m.active_tasks();
    assert_eq!(active.len(), 2);
    assert!(active.iter().any(|t| t.id == a));
    assert!(active.iter().any(|t| t.id == b));

    // c completed at 10; five minutes later it is recent
    let recent = m.recent_tasks(10 + 5 * 60 * 1_000);
    assert_eq!(recent.len(), 1);
    assert_eq!(recent[0].id, c);
    // eleven minutes later it is not
    assert!(m.recent_tasks(10 + 11 * 60 * 1_000).is_empty());

    assert_eq!(m.all_tasks().len(), 3);
}

#[test]
fn take_result_channel_returns_data_at_most_once() {
    // The one-shot result channel is handed out exactly once; a second
    // take comes back empty.
    let mut m = TaskManager::new();
    let id = m.create_task(String::from("gen"), TaskType::AIGeneration, 0);
    let (tx, rx) = tokio::sync::mpsc::channel::<Option<String>>(1);
    m.set_response_channel(id, rx);

    tx.blocking_send(Some(String::from("the result"))).unwrap();
    let mut taken = m.take_response_channel(id).expect("first take yields the channel");
    assert_eq!(taken.blocking_recv(), Some(Some(String::from("the result"))));

    assert!(m.take_response_channel(id).is_none());
    assert!(m.take_response_channel(id).is_none());
}

#[test]
fn set_response_channel_replaces_a_previous_channel() {
    let mut m = TaskManager::new();
    let id = m.create_task(String::from("gen"), TaskType::AIGeneration, 0);
    let (tx1, rx1) = tokio::sync::mpsc::channel::<Option<String>>(1);
    let (tx2, rx2) = tokio::sync::mpsc::channel::<Option<String>>(1);
    m.set_response_channel(id, rx1);
    m.set_response_channel(id, rx2);
    tx1.blocking_send(Some(String::from("old"))).ok();
    tx2.blocking_send(Some(String::from("new"))).unwrap();
    let mut taken = m.take_response_channel(id).unwrap();
    assert_eq!(taken.blocking_recv(), Some(Some(String::from("new"))));
    assert!(m.take_response_channel(id).is_none());
}

#[test]
fn two_submissions_have_independent_timelines() {
    // Two submissions yield distinct ids, and updates addressed to one
    // never touch the other.
    let mut m = TaskManager::new();
    let a = m.create_task(String::from("first"), TaskType::AIGeneration, 0);
    let b = m.create_task(String::from("second"), TaskType::AIGeneration, 0);
    assert_ne!(a, b);

    assert!(m.update_task_status(a, TaskStatus::Running, 10));
    assert!(m.update_task_status(a, TaskStatus::Completed, 20));
    let tb = m.get_task(b).unwrap();
    assert_eq!(tb.status, TaskStatus::Pending);
    assert!(tb.started_at.is_none());
    assert!(tb.completed_at.is_none());

    assert!(m.update_task_status(b, TaskStatus::Running, 30));
    let ta = m.get_task(a).unwrap();
    assert_eq!(ta.status, TaskStatus::Completed);
    assert_eq!(ta.completed_at, Some(20));
}

#[test]
fn notifications_log_every_change_in_order() {
    let mut m = TaskManager::new();
    let a = m.create_task(String::from("a"), TaskType::Other, 0);
    let b = m.create_task(String::from("b"), TaskType::Other, 0);
    assert!(m.update_task_status(a, TaskStatus::Running, 1));
    assert!(m.update_task_progress(a, 5, 100));
    assert!(m.cancel_task(b, 2));

    let updates = m.drain_updates();
    assert_eq!(updates, vec![a, b, a, a, b]);
    assert!(m.drain_updates().is_empty());
}

#[test]
fn progress_updates_flow_through_the_registry() {
    let mut m = TaskManager::new();
    let id = m.create_task(String::from("gen"), TaskType::AIGeneration, 0);
    assert!(m.update_task_status(id, TaskStatus::Running, 0));
    // first progress call attaches a fresh record
    assert!(m.update_task_progress(id, 10, 1_000));
    let p = m.get_task(id).unwrap().progress.expect("progress attached");
    assert_eq!(p.start_time, 1_000);
    // a later call far enough apart moves the token count and the rate
    assert!(m.update_task_progress(id, 110, 2_000));
    let p = m.get_task(id).unwrap().progress.unwrap();
    assert_eq!(p.tokens_generated, 110);
    assert_eq!(p.tokens_per_second_milli, 110_000);
}

#[test]
fn completion_percent_caps_until_marked_complete() {
    // With an estimated total of 100 tokens, reaching 100 tokens still
    // reads 99.9% until the task is marked completed, then 100.0%.
    let mut task = Task::new(String::from("gen"), TaskType::AIGeneration, 0);
    task.mark_running(0);
    let mut progress = ProgressStats::new(0);
    progress.estimated_total_tokens = Some(100);
    task.set_progress(progress);

    task.update_progress(50, 1_000);
    let p = task.progress.unwrap();
    assert_eq!(p.completion_permille, Some(500));

    task.update_progress(100, 2_000);
    let p = task.progress.unwrap();
    assert_eq!(p.completion_permille, Some(999));

    task.mark_completed(3_000);
    let p = task.progress.unwrap();
    assert_eq!(p.completion_permille, Some(1000));
    assert_eq!(task.status, TaskStatus::Completed);
}

#[test]
fn task_id_short_is_the_first_uuid_group() {
    let id = TaskId(0xdeadbeef_0000_4000_8000_000000000001u128);
    assert_eq!(id.short(), "deadbeef");
    let id = TaskId(0x00000001u128 << 96);
    assert_eq!(id.short(), "00000001");
    // the short form matches the first group of the uuid rendering
    let raw = uuid::Uuid::new_v4();
    let id = TaskId(raw.as_u128());
    let full = raw.to_string();
    assert_eq!(id.short(), full.split('-').next().unwrap());
}

#[test]
fn task_duration_and_format() {
    let mut task = Task::new(String::from("t"), TaskType::Other, 1_000);
    // not started: duration runs from creation to now
    assert_eq!(task.duration_seconds(3_500), 2);
    task.mark_running(2_000);
    task.mark_completed(62_000);
    assert_eq!(task.duration_seconds(99_999), 60);
    assert_eq!(task.format_duration(99_999), "1m 0s");

    let mut quick = Task::new(String::from("q"), TaskType::Other, 0);
    quick.mark_running(0);
    quick.mark_completed(450);
    assert_eq!(quick.format_duration(9_999), "0.45s");

    let mut mid = Task::new(String::from("m"), TaskType::Other, 0);
    mid.mark_running(0);
    mid.mark_completed(2_500);
    assert_eq!(mid.format_duration(9_999), "2.5s");
}
