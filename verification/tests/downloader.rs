use waltzgps::cache::Cache;
use waltzgps::config::{ApiKeySource, CachePolicy, Header, Provider};
use waltzgps::downloader::{
    curl_args, downloaded, failure_message, fetch_and_cache, user_agent, Downloader, KeyJob,
    TileKey, WorkQueue, WorkerStep, NUM_WORKERS,
};
use waltzgps::paths::{Environment, FsPath};
use waltzgps::tile::TileId;

fn env() -> Environment {
    Environment {
        home: Some(FsPath::from_text("/home/w")),
        xdg_config_home: None,
        xdg_cache_home: None,
        xdg_state_home: None,
    }
}

fn policy(dir: &str) -> CachePolicy {
    CachePolicy { directory: Some(dir.into()), max_size_mb: 1, max_age_days: 1 }
}

fn key(provider: usize, x: u32) -> TileKey {
    TileKey { provider, tile: TileId::new(3, x, 5) }
}

fn provider(source: Option<ApiKeySource>) -> Provider {
    Provider {
        name: "t".into(),
        url: "https://s/{z}/{x}/{y}.png?k={api_key}".into(),
        api_key_source: source,
        headers: vec![
            Header { name: "X-Custom".into(), value: "abc".into() },
            Header { name: "Referer".into(), value: "".into() },
        ],
        ..Provider::default()
    }
}

fn downloader(providers: Vec<Provider>) -> Downloader {
    Downloader::new(providers, Cache::new(&policy("/a"), &env()))
}

#[test]
fn queue_serves_the_newest_first() {
    let mut q = WorkQueue::new();
    assert!(q.pop().is_none());
    q.push(key(0, 1));
    q.push(key(0, 2));
    assert_eq!(q.pop(), Some(key(0, 2)));
    q.push(key(0, 3));
    assert_eq!(q.pop(), Some(key(0, 3)));
    assert_eq!(q.pop(), Some(key(0, 1)));
    assert_eq!(q.pop(), None);
    q.push(key(0, 4));
    q.clear();
    assert_eq!(q.pop(), None);
    assert_eq!(NUM_WORKERS, 4);
}

#[test]
fn download_arguments_are_exact() {
    let agent = user_agent("0.1.0");
    assert_eq!(agent, "WaltzGPS/0.1.0 (map viewer)");
    let args = curl_args(&provider(None), TileId::new(3, 4, 5), Some("sesame"), &agent);
    assert_eq!(
        args,
        vec![
            "-s",
            "-S",
            "-L",
            "--max-time",
            "20",
            "-A",
            "WaltzGPS/0.1.0 (map viewer)",
            "-H",
            "X-Custom: abc",
            "-H",
            "Referer: ",
            "--",
            "https://s/3/4/5.png?k=sesame",
        ]
    );
}

#[test]
fn download_without_headers_or_key() {
    let p = Provider { url: "-o/{z}".into(), ..Provider::default() };
    let args = curl_args(&p, TileId::new(3, 4, 5), None, "agent");
    assert_eq!(args.len(), 9);
    assert_eq!(args[7..], ["--".to_string(), "-o/3".to_string()]);
}

#[test]
fn empty_or_failed_downloads_give_nothing() {
    assert_eq!(downloaded(true, vec![1, 2]), Some(vec![1, 2]));
    assert_eq!(downloaded(true, vec![]), None);
    assert_eq!(downloaded(false, vec![1, 2]), None);
}

#[test]
fn failure_report_names_the_template() {
    assert_eq!(
        failure_message(TileId::new(3, 4, 5), &provider(None)),
        "tile TileId { z: 3, x: 4, y: 5 } fetch failed for https://s/{z}/{x}/{y}.png?k={api_key}"
    );
}

#[test]
fn requests_for_missing_providers_fail_at_once() {
    let mut d = downloader(vec![provider(None)]);
    assert!(d.next_step().is_none());
    d.request(key(1, 0));
    match d.next_step() {
        Some(WorkerStep::Deliver(r)) => {
            assert_eq!(r.key, key(1, 0));
            assert_eq!(r.data, None);
        }
        other => panic!("{other:?}"),
    }
}

/// Requests a tile and takes the request up: the provider and its list.
fn look_up(d: &mut Downloader, k: TileKey) -> (Provider, u64) {
    d.request(k);
    match d.next_step() {
        Some(WorkerStep::LookUp { key, provider, list }) => {
            assert_eq!(key, k);
            (provider, list)
        }
        other => panic!("{other:?}"),
    }
}

/// Goes on without a cached tile, expecting that a key has to be read.
fn job(d: &mut Downloader, k: TileKey, p: &Provider, list: u64, now: u128) -> KeyJob {
    match d.after_lookup(k, p.clone(), list, None, now) {
        (WorkerStep::Deliver(r), Some(job)) => {
            assert_eq!((r.key, r.data), (k, None));
            job
        }
        other => panic!("{other:?}"),
    }
}

fn command(text: &str) -> Provider {
    provider(Some(ApiKeySource::Command(text.into())))
}

#[test]
fn cached_tiles_need_no_key() {
    let mut d = downloader(vec![command("echo k")]);
    let (p, list) = look_up(&mut d, key(0, 7));
    assert_eq!(p.name, "t");
    match d.after_lookup(key(0, 7), p.clone(), list, Some(vec![9]), 0) {
        (WorkerStep::Deliver(r), None) => assert_eq!((r.key, r.data), (key(0, 7), Some(vec![9]))),
        other => panic!("{other:?}"),
    }
}

#[test]
fn keys_are_resolved_before_a_download() {
    let mut d = downloader(vec![command("echo k")]);
    let (p, list) = look_up(&mut d, key(0, 7));
    let reading = job(&mut d, key(0, 7), &p, list, 0);
    assert_eq!(reading.idx, 0);
    assert!(matches!(&reading.source, ApiKeySource::Command(c) if c == "echo k"));
    assert!(matches!(d.after_lookup(key(0, 8), p.clone(), list, None, 1), (WorkerStep::Deliver(_), None)));
    d.finish_key(0, reading.ticket, Some("k".into()), 2);
    match d.after_lookup(key(0, 7), p.clone(), list, None, 3) {
        (WorkerStep::Fetch { key: k, api_key, .. }, None) => {
            assert_eq!((k, api_key), (key(0, 7), Some("k".to_string())));
        }
        other => panic!("{other:?}"),
    }
    // A new provider list has its keys read anew.
    assert!(d.has_numbers());
    d.set_providers(vec![command("echo k")]);
    let (p, list) = look_up(&mut d, key(0, 7));
    assert_ne!(job(&mut d, key(0, 7), &p, list, 4).ticket, reading.ticket);
}

#[test]
fn a_reading_under_way_at_a_list_change_is_ignored() {
    let mut d = downloader(vec![command("old")]);
    let (p, list) = look_up(&mut d, key(0, 7));
    let old = job(&mut d, key(0, 7), &p, list, 0);
    d.set_providers(vec![command("new")]);

    // The old reading ends before the new list's key was asked for.
    d.finish_key(old.idx, old.ticket, Some("old-key".into()), 1);
    let (p, list) = look_up(&mut d, key(0, 7));
    let new = job(&mut d, key(0, 7), &p, list, 2);
    assert!(matches!(&new.source, ApiKeySource::Command(c) if c == "new"));
    // It ends again, while the new one is under way.
    d.finish_key(old.idx, old.ticket, Some("old-key".into()), 3);
    assert!(matches!(d.after_lookup(key(0, 7), p.clone(), list, None, 4), (WorkerStep::Deliver(_), None)));
    // A failure of the old one does not count either.
    d.finish_key(old.idx, old.ticket, None, 5);

    d.finish_key(new.idx, new.ticket, Some("new-key".into()), 6);
    d.finish_key(old.idx, old.ticket, Some("old-key".into()), 7);
    match d.after_lookup(key(0, 7), p.clone(), list, None, 8) {
        (WorkerStep::Fetch { provider, api_key, .. }, None) => {
            assert!(matches!(provider.api_key_source, Some(ApiKeySource::Command(c)) if c == "new"));
            assert_eq!(api_key, Some("new-key".to_string()));
        }
        other => panic!("{other:?}"),
    }
}

#[test]
fn a_lookup_under_way_at_a_list_change_touches_no_key() {
    let mut d = downloader(vec![command("old")]);
    let (old, outdated) = look_up(&mut d, key(0, 7));
    d.set_providers(vec![command("new")]);
    // It starts no reading,
    match d.after_lookup(key(0, 7), old.clone(), outdated, None, 0) {
        (WorkerStep::Deliver(r), None) => assert_eq!(r.data, None),
        other => panic!("{other:?}"),
    }
    // gets no key of the new provider,
    let (p, list) = look_up(&mut d, key(0, 7));
    let new = job(&mut d, key(0, 7), &p, list, 1);
    d.finish_key(new.idx, new.ticket, Some("new-key".into()), 2);
    match d.after_lookup(key(0, 7), old.clone(), outdated, None, 3) {
        (WorkerStep::Deliver(r), None) => assert_eq!(r.data, None),
        other => panic!("{other:?}"),
    }
    // and delivers what it found.
    match d.after_lookup(key(0, 7), old.clone(), outdated, Some(vec![1]), 4) {
        (WorkerStep::Deliver(r), None) => assert_eq!(r.data, Some(vec![1])),
        other => panic!("{other:?}"),
    }
}

#[test]
fn a_lookup_under_way_at_a_list_change_keeps_its_provider() {
    let literal = provider(Some(ApiKeySource::Literal(" sesame ".into())));
    let blank = provider(Some(ApiKeySource::Literal(" ".into())));
    let mut plain = provider(None);
    plain.name = "plain".into();
    let mut d = downloader(vec![plain, literal, blank]);
    let taken: Vec<_> = (0..3).map(|i| look_up(&mut d, key(i, 7))).collect();
    d.set_providers(vec![command("new")]);

    let (p, list) = taken[0].clone();
    match d.after_lookup(key(0, 7), p, list, None, 0) {
        (WorkerStep::Fetch { provider, api_key, .. }, None) => {
            assert_eq!((provider.name.as_str(), api_key), ("plain", None));
        }
        other => panic!("{other:?}"),
    }
    let (p, list) = taken[1].clone();
    match d.after_lookup(key(1, 7), p, list, None, 1) {
        (WorkerStep::Fetch { provider, api_key, .. }, None) => {
            assert_eq!((provider.name.as_str(), api_key), ("t", Some("sesame".to_string())));
        }
        other => panic!("{other:?}"),
    }
    let (p, list) = taken[2].clone();
    match d.after_lookup(key(2, 7), p, list, None, 2) {
        (WorkerStep::Deliver(r), None) => assert_eq!((r.key, r.data), (key(2, 7), None)),
        other => panic!("{other:?}"),
    }
}

#[test]
fn providers_without_a_source_are_fetched_without_a_key() {
    let mut d = downloader(vec![provider(None)]);
    let (p, list) = look_up(&mut d, key(0, 1));
    match d.after_lookup(key(0, 1), p, list, None, 0) {
        (WorkerStep::Fetch { api_key, .. }, None) => assert_eq!(api_key, None),
        other => panic!("{other:?}"),
    }
}

#[test]
fn fetched_bytes_are_stored_in_the_file_of_their_tile() {
    let cache = Cache::new(&policy("/a"), &env());
    let p = Provider { name: "a b".into(), ..provider(None) };
    let (r, file) = fetch_and_cache(&cache, &p, key(0, 1), Some(vec![1]));
    assert_eq!((r.key, r.data), (key(0, 1), Some(vec![1])));
    assert_eq!(file, Some(FsPath::from_text("/a/a_b/3/1/5.png")));
    let (r, file) = fetch_and_cache(&cache, &p, key(0, 1), None);
    assert_eq!((r.key, r.data, file), (key(0, 1), None, None));
}

#[test]
fn the_rest_of_the_handle() {
    let mut d = downloader(vec![provider(None)]);
    assert!(!d.results_taken());
    d.take_results();
    assert!(d.results_taken());
    d.request(key(0, 1));
    d.clear_queue();
    assert!(d.next_step().is_none());
    assert_eq!(d.cache().directory(), FsPath::from_text("/a"));
    d.update_cache_policy(&policy("/b"), &env());
    assert_eq!(d.cache().directory(), FsPath::from_text("/b"));
}
