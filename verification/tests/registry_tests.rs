use rendezvous::config::Config;
use rendezvous::registry::{PopOutcome, Registry, RetireOutcome, UploadOutcome};

fn cfg() -> Config {
    Config::default()
}

fn seeded(id: &str, secret: &str, length: u64, now: u64) -> Registry {
    let mut reg = Registry::new();
    let inserted = reg.insert_transfer(id.to_string(), secret.to_string(), length, now, &cfg());
    assert!(inserted);
    reg
}

#[test]
fn insert_is_create_if_absent() {
    let mut reg = Registry::new();
    assert!(reg.handle_space_left());
    assert!(reg.insert_transfer("abc".into(), "xyz".into(), 5, 0, &cfg()));
    assert!(!reg.insert_transfer("abc".into(), "other".into(), 7, 0, &cfg()));
    assert!(reg.insert_transfer("abd".into(), "xyz".into(), 5, 0, &cfg()));
}

#[test]
fn request_id_registers_a_fresh_pair() {
    let mut reg = Registry::new();
    let (id, secret) = reg.request_id(5, 0, &cfg()).expect("fresh id");
    assert_eq!(id.chars().count(), 10);
    assert_eq!(secret.chars().count(), 10);
    // The identifier is taken now.
    assert!(!reg.insert_transfer(id, "s".into(), 1, 0, &cfg()));
}

#[test]
fn retire_requires_the_exact_secret() {
    let mut reg = seeded("abc", "xyz", 5, 0);
    assert_eq!(reg.retire_id(&"abc".into(), &"wrong".into()).0, RetireOutcome::BadSecret);
    assert_eq!(reg.retire_id(&"nope".into(), &"xyz".into()).0, RetireOutcome::UnknownId);
    assert_eq!(reg.retire_id(&"abc".into(), &"xyz".into()).0, RetireOutcome::Removed);
    assert_eq!(reg.retire_id(&"abc".into(), &"xyz".into()).0, RetireOutcome::UnknownId);
}

#[test]
fn upload_checks_in_the_endpoint_order() {
    let mut reg = seeded("abc", "xyz", 5, 0);
    assert_eq!(reg.upload(&"abc".into(), &"xyz".into(), None, &cfg()), UploadOutcome::MissingLength);
    assert_eq!(
        reg.upload(&"abc".into(), &"xyz".into(), Some(1048577), &cfg()),
        UploadOutcome::TooLarge
    );
    assert_eq!(
        reg.upload(&"zzz".into(), &"xyz".into(), Some(5), &cfg()),
        UploadOutcome::UnknownId
    );
    assert_eq!(
        reg.upload(&"abc".into(), &"wrong".into(), Some(5), &cfg()),
        UploadOutcome::BadSecret
    );
    assert_eq!(
        reg.upload(&"abc".into(), &"xyz".into(), Some(6), &cfg()),
        UploadOutcome::WrongLength
    );
    assert_eq!(reg.upload(&"abc".into(), &"xyz".into(), Some(5), &cfg()), UploadOutcome::Queued(0));
}

#[test]
fn wrong_secret_leaves_the_transfer_usable() {
    // Capability isolation: the failed attempts above must not change the
    // transfer; a correct upload afterwards still succeeds.
    let mut reg = seeded("abc", "xyz", 5, 0);
    assert_eq!(
        reg.upload(&"abc".into(), &"wrong".into(), Some(5), &cfg()),
        UploadOutcome::BadSecret
    );
    assert_eq!(reg.retire_id(&"abc".into(), &"wrong".into()).0, RetireOutcome::BadSecret);
    assert_eq!(reg.upload(&"abc".into(), &"xyz".into(), Some(5), &cfg()), UploadOutcome::Queued(0));
}

#[test]
fn uploaders_match_downloads_in_arrival_order() {
    let mut reg = seeded("abc", "xyz", 5, 0);
    let h1 = match reg.upload(&"abc".into(), &"xyz".into(), Some(5), &cfg()) {
        UploadOutcome::Queued(h) => h,
        o => panic!("unexpected {:?}", o),
    };
    let h2 = match reg.upload(&"abc".into(), &"xyz".into(), Some(5), &cfg()) {
        UploadOutcome::Queued(h) => h,
        o => panic!("unexpected {:?}", o),
    };
    let h3 = match reg.upload(&"abc".into(), &"xyz".into(), Some(5), &cfg()) {
        UploadOutcome::Queued(h) => h,
        o => panic!("unexpected {:?}", o),
    };
    assert!(h1 < h2 && h2 < h3);
    for expected in [h1, h2, h3] {
        match reg.pop_uploader(&"abc".into()) {
            PopOutcome::Popped(f) => assert_eq!(f.handle, expected),
            _ => panic!("expected a queued uploader"),
        }
    }
    assert!(matches!(reg.pop_uploader(&"abc".into()), PopOutcome::NoUploader));
}

#[test]
fn pop_distinguishes_unknown_and_empty() {
    let mut reg = seeded("abc", "xyz", 5, 0);
    assert!(matches!(reg.pop_uploader(&"abc".into()), PopOutcome::NoUploader));
    assert!(matches!(reg.pop_uploader(&"zzz".into()), PopOutcome::UnknownId));
}

#[test]
fn queued_pipe_starts_fresh() {
    let mut reg = seeded("abc", "xyz", 5, 0);
    assert!(matches!(
        reg.upload(&"abc".into(), &"xyz".into(), Some(5), &cfg()),
        UploadOutcome::Queued(_)
    ));
    match reg.pop_uploader(&"abc".into()) {
        PopOutcome::Popped(f) => {
            assert_eq!(f.length, 5);
            assert_eq!(f.bytes_sent, 0);
            assert!(!f.fused);
        }
        _ => panic!("expected the queued uploader"),
    }
}

#[test]
fn zero_length_transfer_is_accepted() {
    let mut reg = seeded("abc", "xyz", 0, 0);
    assert_eq!(reg.upload(&"abc".into(), &"xyz".into(), Some(0), &cfg()), UploadOutcome::Queued(0));
    match reg.pop_uploader(&"abc".into()) {
        PopOutcome::Popped(f) => assert_eq!(f.length, 0),
        _ => panic!("expected the queued uploader"),
    }
}

#[test]
fn sweep_removes_only_expired_transfers() {
    // Defaults: a transfer created at 0 expires at 3600.
    let mut reg = Registry::new();
    assert!(reg.insert_transfer("old".into(), "s".into(), 5, 0, &cfg()));
    assert!(reg.insert_transfer("new".into(), "s".into(), 5, 1000, &cfg()));
    let _ = reg.sweep(3599);
    assert_eq!(reg.retire_id(&"old".into(), &"s".into()).0, RetireOutcome::Removed);
    assert!(reg.insert_transfer("old".into(), "s".into(), 5, 0, &cfg()));
    // At 3600 + the sweep interval the untouched transfer has expired.
    let _ = reg.sweep(3660);
    assert_eq!(reg.retire_id(&"old".into(), &"s".into()).0, RetireOutcome::UnknownId);
    assert_eq!(reg.retire_id(&"new".into(), &"s".into()).0, RetireOutcome::Removed);
}

#[test]
fn successful_download_refreshes_expiration() {
    let mut reg = seeded("abc", "xyz", 5, 0);
    assert!(matches!(
        reg.upload(&"abc".into(), &"xyz".into(), Some(5), &cfg()),
        UploadOutcome::Queued(_)
    ));
    assert!(matches!(reg.pop_uploader(&"abc".into()), PopOutcome::Popped(_)));
    assert!(reg.refresh_expiration(&"abc".into(), 3000, &cfg()));
    // Without the refresh the transfer would expire at 3600.
    let _ = reg.sweep(3660);
    assert_eq!(reg.retire_id(&"abc".into(), &"xyz".into()).0, RetireOutcome::Removed);
}

#[test]
fn retire_returns_the_queued_pipe_handles() {
    let mut reg = seeded("abc", "xyz", 5, 0);
    assert!(matches!(
        reg.upload(&"abc".into(), &"xyz".into(), Some(5), &cfg()),
        UploadOutcome::Queued(0)
    ));
    assert!(matches!(
        reg.upload(&"abc".into(), &"xyz".into(), Some(5), &cfg()),
        UploadOutcome::Queued(1)
    ));
    // A failed retire drops nothing.
    let (outcome, dropped) = reg.retire_id(&"abc".into(), &"wrong".into());
    assert_eq!(outcome, RetireOutcome::BadSecret);
    assert!(dropped.is_empty());
    // The successful retire hands back both queued pipes, in queue order,
    // so the caller can release them and cancel their waiting uploaders.
    let (outcome, dropped) = reg.retire_id(&"abc".into(), &"xyz".into());
    assert_eq!(outcome, RetireOutcome::Removed);
    assert_eq!(dropped, vec![0, 1]);
}

#[test]
fn sweep_returns_the_expired_queues_handles() {
    let mut reg = Registry::new();
    assert!(reg.insert_transfer("old".into(), "s".into(), 5, 0, &cfg()));
    assert!(reg.insert_transfer("new".into(), "s".into(), 5, 2000, &cfg()));
    assert!(matches!(
        reg.upload(&"old".into(), &"s".into(), Some(5), &cfg()),
        UploadOutcome::Queued(0)
    ));
    assert!(matches!(
        reg.upload(&"new".into(), &"s".into(), Some(5), &cfg()),
        UploadOutcome::Queued(1)
    ));
    assert!(matches!(
        reg.upload(&"old".into(), &"s".into(), Some(5), &cfg()),
        UploadOutcome::Queued(2)
    ));
    // "old" expires at 3600, "new" at 5600: only "old"'s pipes come back.
    let mut dropped = reg.sweep(3660);
    dropped.sort();
    assert_eq!(dropped, vec![0, 2]);
    assert!(matches!(reg.pop_uploader(&"new".into()), PopOutcome::Popped(_)));
    // Nothing expired: nothing dropped.
    assert!(reg.sweep(3660).is_empty());
}

#[test]
fn snapshot_reports_every_transfer() {
    let mut reg = Registry::new();
    assert!(reg.insert_transfer("abc".into(), "xyz".into(), 5, 0, &cfg()));
    assert!(reg.insert_transfer("abd".into(), "www".into(), 9, 100, &cfg()));
    assert!(matches!(
        reg.upload(&"abc".into(), &"xyz".into(), Some(5), &cfg()),
        UploadOutcome::Queued(_)
    ));
    let mut rows = reg.snapshot();
    rows.sort_by(|a, b| a.id.cmp(&b.id));
    assert_eq!(rows.len(), 2);
    assert_eq!(rows[0].id, "abc");
    assert_eq!(rows[0].length, 5);
    assert_eq!(rows[0].expiration, 3600);
    assert_eq!(rows[0].queued, 1);
    assert_eq!(rows[1].id, "abd");
    assert_eq!(rows[1].length, 9);
    assert_eq!(rows[1].expiration, 3700);
    assert_eq!(rows[1].queued, 0);
}
