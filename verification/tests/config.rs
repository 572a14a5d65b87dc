use bilibili_webhook::config::Config;

fn cfg(media_id: u64, update: bool) -> Config {
    Config { media_id, interval: 10, option: String::new(), path: format!("p{media_id}"), update }
}

#[test]
fn only_watched_lists_are_kept_in_order() {
    let kept = Config::feeds_to_update(vec![cfg(1, true), cfg(2, false), cfg(3, true), cfg(4, false)]);
    let ids: Vec<u64> = kept.iter().map(|c| c.media_id).collect();
    assert_eq!(ids, vec![1, 3]);
}

#[test]
fn no_watched_list_keeps_nothing() {
    assert!(Config::feeds_to_update(vec![cfg(1, false)]).is_empty());
    assert!(Config::feeds_to_update(vec![]).is_empty());
}

#[test]
fn stored_token_wins() {
    let t = Config::sessdata_from(Some("file".to_string()), Some(Some("env".to_string())));
    assert_eq!(t, Some("file".to_string()));
}

#[test]
fn environment_token_when_nothing_stored() {
    assert_eq!(Config::sessdata_from(None, Some(Some("env".to_string()))), Some("env".to_string()));
    assert_eq!(Config::sessdata_from(None, Some(None)), None);
    assert_eq!(Config::sessdata_from(None, None), None);
}

#[test]
fn token_stored_only_when_file_missing() {
    assert_eq!(Config::sessdata_to_store(true, Some(vec![1, 2])), None);
    assert_eq!(Config::sessdata_to_store(false, Some(vec![1, 2])), Some(vec![1, 2]));
    assert_eq!(Config::sessdata_to_store(false, None), None);
}

#[test]
fn poll_interval_in_seconds() {
    assert_eq!(cfg(1, true).poll_secs(), 600);
    let c = Config { interval: 0, ..cfg(1, true) };
    assert_eq!(c.poll_secs(), 0);
}
