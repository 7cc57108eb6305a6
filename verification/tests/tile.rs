use waltzgps::config::Provider;
use waltzgps::tile::TileId;

fn provider(url: &str, tms: bool) -> Provider {
    Provider { name: "t".into(), url: url.into(), tms, max_zoom: 19, ..Provider::default() }
}

#[test]
fn fills_xyz_placeholders() {
    let t = TileId::new(3, 4, 5);
    assert_eq!(
        t.url(&provider("https://s/{z}/{x}/{y}.png", false)),
        "https://s/3/4/5.png"
    );
}

#[test]
fn tms_flips_y() {
    // At z=3 there are 8 rows (0..=7); TMS row for y=5 is 7-5 = 2.
    let t = TileId::new(3, 4, 5);
    assert_eq!(
        t.url(&provider("https://s/{z}/{x}/{y}.png", true)),
        "https://s/3/4/2.png"
    );
}

#[test]
fn tms_flip_is_its_own_inverse() {
    let p = provider("{y}", true);
    let there = TileId::new(3, 4, 5).url(&p);
    let row: u32 = there.parse().unwrap();
    assert_eq!(TileId::new(3, 4, row).url(&p), "5");
}

#[test]
fn tms_and_xyz_agree_on_mirrored_rows() {
    let tms = provider("https://s/{z}/{x}/{y}.png", true);
    let xyz = provider("https://s/{z}/{x}/{y}.png", false);
    assert_eq!(TileId::new(31, 7, 0).url(&tms), TileId::new(31, 7, 0x7fff_ffff).url(&xyz));
    assert_eq!(TileId::new(0, 0, 0).url(&tms), "https://s/0/0/0.png");
}

#[test]
fn repeated_and_absent_placeholders() {
    let t = TileId::new(255, u32::MAX, u32::MAX);
    assert_eq!(t.url(&provider("{x}{x}-{z}{z}", false)), "42949672954294967295-255255");
    assert_eq!(t.url(&provider("https://s/tile.png", false)), "https://s/tile.png");
    assert_eq!(t.url(&provider("", false)), "");
    // Broken placeholders stay.
    assert_eq!(t.url(&provider("{z{x} }{", false)), "{z4294967295 }{");
}

#[test]
fn non_ascii_templates_are_filled() {
    let t = TileId::new(1, 2, 3);
    assert_eq!(t.url(&provider("https://höst/ü{z}é{x}世{y}", false)), "https://höst/ü1é2世3");
}

#[test]
fn key_is_filled_in_last_and_verbatim() {
    let t = TileId::new(3, 4, 5);
    let p = provider("https://s/{z}/{x}/{y}.png?key={api_key}", false);
    assert_eq!(t.url_with_key(&p, Some("abc")), "https://s/3/4/5.png?key=abc");
    // A key that looks like a placeholder is not filled again.
    assert_eq!(t.url_with_key(&p, Some("{z}")), "https://s/3/4/5.png?key={z}");
    assert_eq!(t.url_with_key(&p, None), "https://s/3/4/5.png?key={api_key}");
}

#[test]
fn filling_agrees_with_str_replace() {
    let templates = ["{z}/{x}/{y}", "{{z}}", "{z}{z}{x}", "a{y}b{y}c", "{x", "z}{x}{", "{z}é{y}"];
    for url in templates {
        for (z, x, y) in [(0u8, 0u32, 0u32), (7, 10, 99), (19, 523_288, 1_000_000)] {
            let expected = url
                .replace("{z}", &z.to_string())
                .replace("{x}", &x.to_string())
                .replace("{y}", &y.to_string());
            assert_eq!(TileId::new(z, x, y).url(&provider(url, false)), expected);
        }
    }
}
