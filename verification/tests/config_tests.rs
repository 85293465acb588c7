use rendezvous::config::Config;

#[test]
fn defaults_match_the_documented_table() {
    let cfg = Config::default();
    assert_eq!(cfg.bind, "127.0.0.1:3000");
    assert_eq!(cfg.timeout_secs, 3600);
    assert_eq!(cfg.timeout_scan_interval_secs, 60);
    assert_eq!(cfg.download_retry_ms, 200);
    assert_eq!(cfg.download_max_retries, 9);
    assert_eq!(cfg.token_length, 10);
    assert_eq!(cfg.max_content_length, 1024 * 1024);
}
