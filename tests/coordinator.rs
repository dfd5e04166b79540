use modrinth_downloader::{Coordinator, DownloadOutcome, FailReason, Step, CONCURRENCY};

fn ids(n: usize) -> Vec<String> {
    (0..n).map(|i| format!("id{}", i)).collect()
}

#[test]
fn starts_no_more_than_the_limit() {
    let mut c = Coordinator::new(ids(5), 2);
    assert_eq!(c.next_step(), Step::Start { index: 0 });
    assert_eq!(c.next_step(), Step::Start { index: 1 });
    assert_eq!(c.next_step(), Step::Wait);
    assert_eq!(c.in_flight(), 2);
    assert_eq!(c.free_slots(), 0);
    c.finish(1, Ok("d/b.jar".to_string()));
    assert_eq!(c.free_slots(), 1);
    assert_eq!(c.next_step(), Step::Start { index: 2 });
    assert_eq!(c.next_step(), Step::Wait);
}

#[test]
fn batch_completes_with_mixed_outcomes() {
    let mut c = Coordinator::with_default_limit(ids(10));
    let mut started = Vec::new();
    loop {
        match c.next_step() {
            Step::Start { index } => {
                assert!(c.in_flight() <= CONCURRENCY);
                started.push(index);
            }
            Step::Wait => {
                let index = started.pop().unwrap();
                let result = if index % 3 == 0 {
                    Err(FailReason::Transport { status: Some(404), message: "not found".to_string() })
                } else {
                    Ok(format!("d/{}.jar", index))
                };
                c.finish(index, result);
            }
            Step::Finished => break,
        }
    }
    assert!(c.is_finished());
    assert_eq!(c.free_slots(), CONCURRENCY);
    let r = c.into_result();
    assert_eq!(r.saved.len() + r.failed.len(), 10);
    assert_eq!(r.failed.len(), 4);
    let mut failed = r.failed.clone();
    failed.sort();
    assert_eq!(failed, vec!["id0", "id3", "id6", "id9"]);
}

#[test]
fn outcome_names_the_failed_target() {
    let mut c = Coordinator::new(ids(1), 8);
    assert_eq!(c.next_step(), Step::Start { index: 0 });
    match c.finish(0, Err(FailReason::InvalidUrl)) {
        DownloadOutcome::Failed { identifier, reason } => {
            assert_eq!(identifier, "id0");
            assert!(matches!(reason, FailReason::InvalidUrl));
        }
        DownloadOutcome::Saved { .. } => panic!("expected a failure"),
    }
    assert_eq!(c.next_step(), Step::Finished);
}

#[test]
fn saved_outcome_carries_the_path() {
    let mut c = Coordinator::new(ids(1), 1);
    assert_eq!(c.next_step(), Step::Start { index: 0 });
    match c.finish(0, Ok("d/a.jar".to_string())) {
        DownloadOutcome::Saved { path } => assert_eq!(path, "d/a.jar"),
        DownloadOutcome::Failed { .. } => panic!("expected a saved file"),
    }
    let r = c.into_result();
    assert_eq!(r.saved, vec!["d/a.jar"]);
    assert!(r.failed.is_empty());
}

#[test]
fn empty_batch_is_finished_at_once() {
    let mut c = Coordinator::new(Vec::new(), 8);
    assert_eq!(c.next_step(), Step::Finished);
    assert_eq!(c.free_slots(), 8);
    let r = c.into_result();
    assert!(r.saved.is_empty() && r.failed.is_empty());
}

#[test]
fn gate_is_free_for_a_second_batch() {
    for _ in 0..2 {
        let mut c = Coordinator::new(ids(3), 3);
        for i in 0..3 {
            assert_eq!(c.next_step(), Step::Start { index: i });
        }
        assert_eq!(c.next_step(), Step::Wait);
        for i in 0..3 {
            c.finish(i, Err(FailReason::Io { message: "disk full".to_string() }));
        }
        assert_eq!(c.next_step(), Step::Finished);
        assert_eq!(c.free_slots(), 3);
        assert_eq!(c.identifier(2), "id2");
        assert_eq!(c.len(), 3);
    }
}
