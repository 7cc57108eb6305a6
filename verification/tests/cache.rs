use std::collections::HashMap;
use waltzgps::cache::{sanitize, Cache, CacheRead, CachedFile, FileAge};
use waltzgps::config::CachePolicy;
use waltzgps::paths::{Environment, FsPath};
use waltzgps::tile::TileId;

const DAY: u128 = 86_400 * 1_000_000_000;

fn env() -> Environment {
    Environment {
        home: Some(FsPath::from_text("/home/w")),
        xdg_config_home: None,
        xdg_cache_home: None,
        xdg_state_home: None,
    }
}

fn policy(dir: &str) -> CachePolicy {
    CachePolicy { directory: Some(dir.into()), max_size_mb: 500, max_age_days: 30 }
}

fn text(path: &FsPath) -> String {
    String::from_utf8(path.bytes.clone()).unwrap()
}

#[test]
fn names_are_sanitized() {
    assert_eq!(sanitize("Open Street/Map.v1_2-3"), "Open_Street_Map_v1_2-3");
    assert_eq!(sanitize("../.."), "_____");
    assert_eq!(sanitize("Straße 世界²"), "Straße_世界²");
    assert_eq!(sanitize("a\u{301}€"), "a__");
    assert_eq!(sanitize(""), "");
    assert_eq!(sanitize(&sanitize("x y/z")), "x_y_z");
}

#[test]
fn tile_files_lie_where_the_layout_says() {
    let cache = Cache::new(&policy("/tiles"), &env());
    let tile = TileId::new(3, 4, 5);
    assert_eq!(text(&cache.path_of("OpenStreetMap", tile)), "/tiles/OpenStreetMap/3/4/5.png");
    assert_eq!(text(&cache.put("a b", tile)), "/tiles/a_b/3/4/5.png");
    assert_eq!(
        text(&Cache::tile_path(&FsPath::from_text("/x/"), "osm", TileId::new(0, 0, 4_294_967_295))),
        "/x/osm/0/0/4294967295.png"
    );
    assert_eq!(text(&cache.directory()), "/tiles");
}

#[test]
fn directory_is_resolved_from_the_policy() {
    let none = CachePolicy { directory: None, max_size_mb: 0, max_age_days: 0 };
    assert_eq!(text(&Cache::new(&none, &env()).directory()), "/home/w/.cache/waltzgps");
    assert_eq!(text(&Cache::new(&policy("~/t"), &env()).directory()), "/home/w/t");
}

#[test]
fn a_new_directory_leaves_the_old_files() {
    let mut disk: HashMap<Vec<u8>, &str> = HashMap::new();
    let mut cache = Cache::new(&policy("/base/a"), &env());
    let tile = TileId::new(3, 4, 5);
    disk.insert(cache.put("osm", tile).bytes, "tile-in-a");
    assert_eq!(disk.get(&cache.path_of("osm", tile).bytes), Some(&"tile-in-a"));

    cache.update_policy(&policy("/base/b"), &env());
    assert_eq!(disk.get(&cache.path_of("osm", tile).bytes), None);
    disk.insert(cache.put("osm", tile).bytes, "tile-in-b");
    assert_eq!(disk.get(&cache.path_of("osm", tile).bytes), Some(&"tile-in-b"));

    let old = Cache::tile_path(&FsPath::from_text("/base/a"), "osm", tile);
    assert_eq!(disk.get(&old.bytes), Some(&"tile-in-a"));
}

#[test]
fn every_tile_has_a_file_of_its_own() {
    let cache = Cache::new(&policy("/t"), &env());
    let mut seen = HashMap::new();
    for provider in ["a", "b", "", "1"] {
        for z in 0..3u8 {
            for x in 0..3u32 {
                for y in 0..3u32 {
                    let file = cache.path_of(provider, TileId::new(z, x, y)).bytes;
                    assert!(seen.insert(file, (provider, z, x, y)).is_none());
                }
            }
        }
    }
}

#[test]
fn snapshots_do_not_change() {
    let mut cache = Cache::new(&policy("/a"), &env());
    let before = cache.snapshot();
    cache.update_policy(&policy("/b"), &env());
    assert_eq!(text(&before.directory()), "/a");
    assert_eq!(text(&cache.directory()), "/b");
}

#[test]
fn old_files_expire() {
    let cache = Cache::new(&policy("/a"), &env());
    assert_eq!(cache.get(FileAge::Missing), CacheRead::Absent);
    assert_eq!(cache.get(FileAge::Unknown), CacheRead::Fresh);
    assert_eq!(cache.get(FileAge::Elapsed(0)), CacheRead::Fresh);
    assert_eq!(cache.get(FileAge::Elapsed(30 * DAY)), CacheRead::Fresh);
    assert_eq!(cache.get(FileAge::Elapsed(30 * DAY + 1)), CacheRead::Expired);
}

#[test]
fn nothing_expires_without_an_age_limit() {
    let mut never = policy("/a");
    never.max_age_days = 0;
    let cache = Cache::new(&never, &env());
    assert_eq!(cache.get(FileAge::Elapsed(u128::MAX)), CacheRead::Fresh);
    let files = vec![file(1, 0, u128::MAX)];
    assert!(cache.enforce_policy(&files).expired.is_empty());
}

fn file(size: u64, modified: i128, elapsed: u128) -> CachedFile {
    CachedFile { size, modified, elapsed }
}

const MB: u64 = 1_048_576;

/// Runs a sweep to its end; `fails` tells which removals do not succeed.
fn sweep(cache: &Cache, files: &Vec<CachedFile>, fails: &[usize]) -> (Vec<usize>, Vec<usize>, u64) {
    let mut s = cache.enforce_policy(files);
    let mut gone = Vec::new();
    while let Some(i) = s.next() {
        let ok = !fails.contains(&i);
        if ok {
            gone.push(i);
        }
        s.removed(ok);
    }
    (s.expired.clone(), gone, s.total)
}

#[test]
fn sweep_takes_expired_files_and_then_the_oldest() {
    let mut p = policy("/a");
    p.max_size_mb = 2;
    let cache = Cache::new(&p, &env());
    let files = vec![
        file(MB, 50, 0),
        file(9 * MB, 1, 31 * DAY),
        file(MB, 20, 0),
        file(MB, 40, 0),
        file(MB, 20, 0),
        file(7, 2, 40 * DAY),
    ];
    // Four megabytes stay after the age limit; the two oldest go, and where
    // both are equally old the one listed first goes first.
    assert_eq!(sweep(&cache, &files, &[]), (vec![1, 5], vec![2, 4], 2 * MB));
}

#[test]
fn sweep_goes_on_where_a_removal_fails() {
    let mut p = policy("/a");
    p.max_size_mb = 1;
    let cache = Cache::new(&p, &env());
    let files = vec![file(MB, 1, 0), file(MB, 2, 0), file(MB, 3, 0)];
    assert_eq!(sweep(&cache, &files, &[0]), (vec![], vec![1, 2], MB));
    assert_eq!(sweep(&cache, &files, &[0, 1, 2]), (vec![], vec![], 3 * MB));
}

#[test]
fn sweep_takes_no_more_than_it_has_to() {
    let mut p = policy("/a");
    p.max_size_mb = 1;
    let cache = Cache::new(&p, &env());
    let files = vec![file(MB, 1, 0), file(1, 2, 0)];
    assert_eq!(sweep(&cache, &files, &[]), (vec![], vec![0], 1));
    let within = vec![file(MB - 1, 1, 0), file(1, 2, 0)];
    assert_eq!(sweep(&cache, &within, &[]), (vec![], vec![], MB));
}

#[test]
fn no_size_limit_means_no_size_eviction() {
    let mut p = policy("/a");
    p.max_size_mb = 0;
    let cache = Cache::new(&p, &env());
    let files = vec![file(u64::MAX - 1, 1, 0), file(1, 2, 0)];
    assert_eq!(sweep(&cache, &files, &[]), (vec![], vec![], u64::MAX));
}

#[test]
fn huge_size_limits_saturate() {
    let mut p = policy("/a");
    p.max_size_mb = u64::MAX;
    let cache = Cache::new(&p, &env());
    assert_eq!(cache.enforce_policy(&vec![]).max_size, u64::MAX);
    p.max_size_mb = 3;
    assert_eq!(Cache::new(&p, &env()).enforce_policy(&vec![]).max_size, 3 * MB);
}

#[test]
fn large_caches_are_sorted_like_std_sorts_them() {
    let mut p = policy("/a");
    p.max_size_mb = 1;
    let cache = Cache::new(&p, &env());
    let mut seed: u32 = 7;
    let mut files = Vec::new();
    for _ in 0..100_000 {
        seed = seed.wrapping_mul(1_103_515_245).wrapping_add(12345);
        files.push(file(64, (seed >> 16) as i128 % 5000 - 2500, 0));
    }
    let mut expected: Vec<usize> = (0..files.len()).collect();
    expected.sort_by_key(|i| files[*i].modified);
    let sweep = cache.enforce_policy(&files);
    assert_eq!(sweep.order, expected);
    assert_eq!(sweep.total, 6_400_000);
}
