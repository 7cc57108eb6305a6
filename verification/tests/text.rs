use waltzgps::args::parse_config_arg;
use waltzgps::geo::tile_count;
use waltzgps::paths::{base_dir, expand_tilde, FsPath};
use waltzgps::text::{decimal_string, is_white_space, replaced, stripped, trimmed};

#[test]
fn white_space_is_what_std_takes_for_it() {
    for code in 0..=0x10_ffffu32 {
        if let Some(c) = char::from_u32(code) {
            assert_eq!(is_white_space(c), c.is_whitespace(), "{code:x}");
        }
    }
}

#[test]
fn trimming_agrees_with_str_trim() {
    for s in ["", " ", "a", "  a b  ", "\t\n x\u{a0}", "\u{3000}é\u{2003}", "a\u{200b}", "\u{85}"] {
        assert_eq!(trimmed(s), s.trim());
        assert_eq!(trimmed(&trimmed(s)), s.trim());
    }
}

#[test]
fn replacing_agrees_with_str_replace() {
    for (s, pat, rep) in [
        ("aaaa", "aa", "b"),
        ("abab", "ab", ""),
        ("xyz", "q", "r"),
        ("é{z}é", "{z}", "12"),
        ("{z}{z}", "{z}", "{z}"),
    ] {
        assert_eq!(replaced(s, pat, rep), s.replace(pat, rep));
    }
}

#[test]
fn decimals_agree_with_to_string() {
    for n in [0u64, 1, 9, 10, 19, 100, 4_294_967_295, u64::MAX] {
        assert_eq!(decimal_string(n), n.to_string());
    }
}

#[test]
fn prefixes_are_stripped() {
    assert_eq!(stripped("--config=/a", "--config="), Some("/a".to_string()));
    assert_eq!(stripped("--config", "--config="), None);
    assert_eq!(stripped("é=x", "é="), Some("x".to_string()));
}

fn path(text: &str) -> FsPath {
    FsPath::from_text(text)
}

#[test]
fn paths_join_like_std_paths() {
    for base in ["", "/", "/a", "/a/", "a/b", "~", "é"] {
        for part in ["", "b", "b/c", "/abs", "ü.png"] {
            let expected = std::path::Path::new(base).join(part);
            assert_eq!(path(base).join(part).bytes, expected.to_str().unwrap().as_bytes());
        }
    }
}

#[test]
fn tilde_is_expanded_only_before_a_separator() {
    let home = Some(path("/home/w"));
    assert_eq!(expand_tilde("~/tiles", &home), path("/home/w/tiles"));
    assert_eq!(expand_tilde("~/", &home), path("/home/w/"));
    assert_eq!(expand_tilde("~other/tiles", &home), path("~other/tiles"));
    assert_eq!(expand_tilde("/x/~/tiles", &home), path("/x/~/tiles"));
    assert_eq!(expand_tilde("~/tiles", &None), path("~/tiles"));
    // What follows the tilde may be absolute.
    assert_eq!(expand_tilde("~//tiles", &home), path("/tiles"));
}

#[test]
fn base_directories_fall_back() {
    let home = Some(path("/home/w"));
    assert_eq!(base_dir(&Some(path("/xdg")), &home, ".cache"), path("/xdg"));
    assert_eq!(base_dir(&Some(path("")), &home, ".cache"), path("/home/w/.cache"));
    assert_eq!(base_dir(&None, &home, ".cache"), path("/home/w/.cache"));
    assert_eq!(base_dir(&None, &None, ".cache"), path("./.cache"));
    // Bytes that are not text survive.
    let odd = FsPath { bytes: vec![47, 0xff, 0xfe] };
    assert_eq!(base_dir(&Some(odd.clone()), &home, ".cache"), odd);
}

fn strings(args: &[&str]) -> Vec<String> {
    args.iter().map(|s| s.to_string()).collect()
}

#[test]
fn config_argument_in_both_forms() {
    assert_eq!(parse_config_arg(&strings(&["--config", "/a"])), Some("/a".to_string()));
    assert_eq!(parse_config_arg(&strings(&["--config=/b"])), Some("/b".to_string()));
    assert_eq!(parse_config_arg(&strings(&["--config="])), Some(String::new()));
    assert_eq!(parse_config_arg(&strings(&["-v", "x", "--config", "/a"])), Some("/a".to_string()));
}

#[test]
fn first_config_argument_counts() {
    assert_eq!(
        parse_config_arg(&strings(&["--config=/b", "--config", "/a"])),
        Some("/b".to_string())
    );
    assert_eq!(
        parse_config_arg(&strings(&["--config", "--config=/b"])),
        Some("--config=/b".to_string())
    );
    assert_eq!(parse_config_arg(&strings(&["--config"])), None);
    assert_eq!(parse_config_arg(&strings(&["--configuration", "/a"])), None);
    assert_eq!(parse_config_arg(&strings(&[])), None);
}

#[test]
fn tile_counts_are_powers_of_two() {
    assert_eq!(tile_count(0), 1);
    assert_eq!(tile_count(3), 8);
    assert_eq!(tile_count(19), 524_288);
    assert_eq!(tile_count(62), 4_611_686_018_427_387_904);
    assert_eq!(tile_count(63), i64::MIN);
    for z in 0..62u8 {
        assert_eq!(tile_count(z + 1), 2 * tile_count(z));
    }
}
