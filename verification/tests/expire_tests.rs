use microbin_store::expire::{cleanup_tasks, remove_expired};
use microbin_store::pasta::{Pasta, PastaFile};

const DAY: i64 = 86400;

fn record(id: u64, expiration: i64, burn_after_reads: u64, read_count: u64, last_read: i64) -> Pasta {
    Pasta {
        id,
        content: String::from("body"),
        file: None,
        extension: String::new(),
        private: false,
        readonly: false,
        editable: false,
        encrypt_server: false,
        encrypt_client: false,
        encrypted_key: None,
        created: 0,
        expiration,
        last_read,
        read_count,
        burn_after_reads,
        pasta_type: String::from("text"),
        hide_read_count: false,
    }
}

fn removed_ids(pastas: &mut Vec<Pasta>, now: i64, gc_days: u64) -> Vec<u64> {
    remove_expired(pastas, now, gc_days).iter().map(|p| p.id).collect()
}

#[test]
fn test_all_policies_disabled_never_removed() {
    // ancient, heavily read, but every policy disabled
    let mut pastas = vec![record(1, 0, 0, 1_000_000, -100 * DAY)];
    let removed = removed_ids(&mut pastas, 1_000_000 * DAY, 0);
    assert!(removed.is_empty());
    assert_eq!(pastas.len(), 1);
}

#[test]
fn test_ttl_alone_removes() {
    let now = 1000;
    let mut pastas = vec![
        record(1, 999, 0, 0, now),  // past its expiry: removed
        record(2, 1000, 0, 0, now), // expiry reached this second: removed
        record(3, 1001, 0, 0, now), // still in the future: kept
    ];
    let removed = removed_ids(&mut pastas, now, 0);
    assert_eq!(removed, vec![1, 2]);
    assert_eq!(pastas[0].id, 3);
}

#[test]
fn test_burn_threshold_decides() {
    let now = 1000;
    // time-to-live already permits for both; burn threshold is 3
    let mut pastas = vec![
        record(1, 10, 3, 3, now), // read 3 times: removed
        record(2, 10, 3, 2, now), // read twice: kept
    ];
    let removed = removed_ids(&mut pastas, now, 0);
    assert_eq!(removed, vec![1]);
    assert_eq!(pastas[0].id, 2);
}

#[test]
fn test_gc_horizon_decides() {
    let now = 100 * DAY;
    // time-to-live already permits for both; horizon is five days
    let mut pastas = vec![
        record(1, 10, 0, 0, now - 10 * DAY), // ten days stale: removed
        record(2, 10, 0, 0, now - 3 * DAY),  // three days stale: kept
    ];
    let removed = removed_ids(&mut pastas, now, 5);
    assert_eq!(removed, vec![1]);
    assert_eq!(pastas[0].id, 2);
}

#[test]
fn test_burn_policy_vetoes_expired_record() {
    let now = 1000;
    // past its time-to-live, but only one of five reads used
    let mut pastas = vec![record(1, 10, 5, 1, now)];
    let removed = removed_ids(&mut pastas, now, 0);
    assert!(removed.is_empty());
    assert_eq!(pastas.len(), 1);
}

#[test]
fn test_all_policies_permitting_removes() {
    let now = 100 * DAY;
    // past expiry, past burn limit, past the gc horizon
    let mut pastas = vec![record(1, 10, 2, 7, now - 9 * DAY)];
    let removed = removed_ids(&mut pastas, now, 5);
    assert_eq!(removed, vec![1]);
    assert!(pastas.is_empty());
}

#[test]
fn test_expiration_pass_idempotent() {
    let now = 100 * DAY;
    let mut pastas = vec![
        record(1, 10, 0, 0, now),          // expired
        record(2, 0, 0, 50, now),          // ttl disabled: kept
        record(3, now + 1, 0, 0, now),     // future expiry: kept
        record(4, 10, 2, 2, now - 6 * DAY) // all policies permit with gc 5... gc disabled here: removed
    ];
    let first = removed_ids(&mut pastas, now, 0);
    assert_eq!(first, vec![1, 4]);
    let survivors: Vec<u64> = pastas.iter().map(|p| p.id).collect();
    let second = removed_ids(&mut pastas, now, 0);
    assert!(second.is_empty());
    let survivors_after: Vec<u64> = pastas.iter().map(|p| p.id).collect();
    assert_eq!(survivors, survivors_after);
}

#[test]
fn test_survivor_order_preserved() {
    let now = 1000;
    let mut pastas = vec![
        record(5, 0, 0, 0, now),
        record(1, 10, 0, 0, now), // removed
        record(9, 0, 0, 0, now),
        record(2, 10, 0, 0, now), // removed
        record(7, 0, 0, 0, now),
    ];
    let removed = removed_ids(&mut pastas, now, 0);
    assert_eq!(removed, vec![1, 2]);
    let survivors: Vec<u64> = pastas.iter().map(|p| p.id).collect();
    assert_eq!(survivors, vec![5, 9, 7]);
}

#[test]
fn test_cleanup_tasks_cover_exactly_the_attachments() {
    let mut with_file = record(1, 10, 0, 0, 0);
    with_file.file = Some(PastaFile {
        name: String::from("report.pdf"),
    });
    let without_file = record(2, 10, 0, 0, 0);
    let mut with_other_file = record(3, 10, 0, 0, 0);
    with_other_file.file = Some(PastaFile {
        name: String::from("a.png"),
    });
    let removed = vec![with_file, without_file, with_other_file];
    let tasks = cleanup_tasks(&removed);
    assert_eq!(tasks.len(), 2);
    assert_eq!(tasks[0].id, 1);
    assert_eq!(tasks[0].file_name, "report.pdf");
    assert_eq!(tasks[1].id, 3);
    assert_eq!(tasks[1].file_name, "a.png");
}

#[test]
fn test_cleanup_tasks_none_without_attachment() {
    let removed = vec![record(1, 10, 0, 0, 0), record(2, 10, 0, 0, 0)];
    let tasks = cleanup_tasks(&removed);
    assert!(tasks.is_empty());
}
