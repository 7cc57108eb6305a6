use waltzgps::config::{ApiKeySource, Config, Header, Provider, Real};
use waltzgps::ui::api_key_field::{ApiKeySourceField, KeyChoice};
use waltzgps::ui::field::{
    optional_entry, spin_count, ChangeGuard, Content, Field, FieldForm, FieldKind, FieldValue,
};
use waltzgps::ui::header_field::HeaderListField;
use waltzgps::ui::preferences::{
    general_fields, general_values, provider_fields, provider_values, set_general, set_provider,
};

fn double(x: f64) -> Real {
    Real { bits: x.to_bits() }
}

#[test]
fn general_tab_has_its_fields() {
    let f = general_fields();
    let labels: Vec<_> = f.iter().map(|f| f.label).collect();
    assert_eq!(
        labels,
        vec![
            "Mouse-wheel sensitivity",
            "Cache directory",
            "Max cache size (MB, 0 = unlimited)",
            "Max cache age (days, 0 = never)",
        ]
    );
    assert_eq!(
        f[0].kind,
        FieldKind::F64Spin { min: double(0.1), max: double(5.0), step: double(0.1), digits: 2 }
    );
    assert_eq!(f[1].kind, FieldKind::OptionalText);
    assert_eq!(
        f[2].kind,
        FieldKind::U64Spin { min: 0, max: 1_000_000, step: 50 }
    );
    assert_eq!(
        f[3].kind,
        FieldKind::U64Spin { min: 0, max: 36_500, step: 1 }
    );
}

#[test]
fn provider_form_has_its_fields() {
    let f = provider_fields();
    let labels: Vec<_> = f.iter().map(|f| f.label).collect();
    assert_eq!(labels, vec!["Name", "URL template", "TMS (flip Y)", "Max zoom"]);
    assert_eq!(f[0].kind, FieldKind::Text);
    assert_eq!(f[1].kind, FieldKind::Text);
    assert_eq!(f[2].kind, FieldKind::Bool);
    assert_eq!(
        f[3].kind,
        FieldKind::U64Spin { min: 1, max: 22, step: 1 }
    );
    assert_eq!(Field::path("Directory").kind, FieldKind::Path);
}

#[test]
fn an_untouched_general_tab_changes_nothing() {
    let mut c = Config::default();
    c.cache.directory = Some("/tiles".into());
    let form = FieldForm::build(general_fields(), &general_values(&c));
    assert!(matches!(&form.contents[1], Content::Text(s) if s == "/tiles"));
    let mut d = c.clone();
    set_general(&mut d, &form.store());
    assert_eq!(d.general, c.general);
    assert_eq!(d.cache.directory, c.cache.directory);
    assert_eq!((d.cache.max_size_mb, d.cache.max_age_days), (500, 30));
    assert_eq!(d.providers.len(), 2);
}

#[test]
fn edits_of_the_general_tab_arrive() {
    let mut c = Config::default();
    let mut form = FieldForm::build(general_fields(), &general_values(&c));
    form.contents[0] = Content::Number(double(0.4));
    form.contents[1] = Content::Text("  ~/t  ".into());
    form.contents[2] = Content::Count(7);
    form.contents[3] = Content::Count(0);
    set_general(&mut c, &form.store());
    assert_eq!(c.general.scroll_sensitivity, double(0.4));
    assert_eq!(c.general.pinch_zoom_sensitivity, double(1.0));
    assert_eq!(c.cache.directory.as_deref(), Some("~/t"));
    assert_eq!((c.cache.max_size_mb, c.cache.max_age_days), (7, 0));
    form.contents[1] = Content::Text("  ".into());
    set_general(&mut c, &form.store());
    assert_eq!(c.cache.directory, None);
}

#[test]
fn provider_forms_round_trip() {
    let p = Provider {
        name: "a".into(),
        url: "u".into(),
        tms: true,
        max_zoom: 12,
        api_key_source: Some(ApiKeySource::Literal("k".into())),
        headers: vec![Header { name: "n".into(), value: "v".into() }],
    };
    let mut form = FieldForm::build(provider_fields(), &provider_values(&Provider::default()));
    form.load(&provider_values(&p));
    let mut q = p.clone();
    set_provider(&mut q, &form.store());
    assert_eq!((q.name.as_str(), q.url.as_str(), q.tms, q.max_zoom), ("a", "u", true, 12));

    form.contents[0] = Content::Text(" b ".into());
    form.contents[2] = Content::Switch(false);
    form.contents[3] = Content::Count(256 + 3);
    set_provider(&mut q, &form.store());
    assert_eq!((q.name.as_str(), q.url.as_str(), q.tms, q.max_zoom), ("b", "u", false, 3));
    // What the form does not show stays.
    assert!(matches!(q.api_key_source, Some(ApiKeySource::Literal(k)) if k == "k"));
    assert_eq!(q.headers.len(), 1);
}

#[test]
fn paths_are_read_like_optional_texts() {
    let mut form = FieldForm::build(
        vec![Field::path("Directory")],
        &vec![FieldValue::Path(Some("/a".into()))],
    );
    assert!(matches!(&form.store()[0], FieldValue::Path(Some(p)) if p == "/a"));
    form.contents[0] = Content::Text(" ".into());
    assert!(matches!(&form.store()[0], FieldValue::Path(None)));
    form.load(&vec![FieldValue::Path(None)]);
    assert!(matches!(&form.contents[0], Content::Text(s) if s.is_empty()));
    assert_eq!(optional_entry("\t x "), Some("x".to_string()));
}

#[test]
fn spin_buttons_count_in_twos_complement() {
    assert_eq!(spin_count(0), 0);
    assert_eq!(spin_count(i32::MAX), i32::MAX as u64);
    for v in [-1, -2, i32::MIN] {
        assert_eq!(spin_count(v), v as u64);
    }
}

#[test]
fn programmatic_updates_do_not_count_as_edits() {
    let mut g = ChangeGuard::new();
    assert!(g.fires());
    g.begin();
    assert!(!g.fires());
    g.end();
    assert!(g.fires());
}

fn with_source(source: Option<ApiKeySource>) -> Provider {
    Provider { api_key_source: source, ..Provider::default() }
}

#[test]
fn key_picker_shows_one_source() {
    let mut f = ApiKeySourceField::build();
    assert_eq!(f.choice, KeyChoice::Nothing);
    f.load(&with_source(Some(ApiKeySource::File("/k".into()))));
    assert_eq!(f.choice, KeyChoice::File);
    assert_eq!((f.literal.as_str(), f.file.as_str(), f.command.as_str()), ("", "/k", ""));
    assert!(f.is_sensitive(KeyChoice::File));
    assert!(!f.is_sensitive(KeyChoice::Literal));
    assert!(!f.is_sensitive(KeyChoice::Command));
    f.load(&with_source(Some(ApiKeySource::Command("c".into()))));
    assert_eq!((f.literal.as_str(), f.file.as_str(), f.command.as_str()), ("", "", "c"));
    f.load(&with_source(Some(ApiKeySource::Literal("l".into()))));
    assert_eq!((f.literal.as_str(), f.file.as_str(), f.command.as_str()), ("l", "", ""));
    f.load(&with_source(None));
    assert_eq!((f.literal.as_str(), f.file.as_str(), f.command.as_str()), ("", "", ""));
    for entry in [KeyChoice::Nothing, KeyChoice::Literal, KeyChoice::File, KeyChoice::Command] {
        assert!(!f.is_sensitive(entry));
    }
}

#[test]
fn key_picker_stores_the_chosen_entry() {
    let mut f = ApiKeySourceField {
        choice: KeyChoice::Literal,
        literal: " l ".into(),
        file: " f ".into(),
        command: " c ".into(),
    };
    let mut p = with_source(None);
    f.store(&mut p);
    assert!(matches!(&p.api_key_source, Some(ApiKeySource::Literal(s)) if s == "l"));
    f.choice = KeyChoice::File;
    f.store(&mut p);
    assert!(matches!(&p.api_key_source, Some(ApiKeySource::File(s)) if s == "f"));
    f.choice = KeyChoice::Command;
    f.store(&mut p);
    assert!(matches!(&p.api_key_source, Some(ApiKeySource::Command(s)) if s == "c"));
    // A blank entry is stored all the same.
    f.command = "  ".into();
    f.store(&mut p);
    assert!(matches!(&p.api_key_source, Some(ApiKeySource::Command(s)) if s.is_empty()));
    f.choice = KeyChoice::Nothing;
    f.store(&mut p);
    assert!(p.api_key_source.is_none());
}

fn header(name: &str, value: &str) -> Header {
    Header { name: name.into(), value: value.into() }
}

#[test]
fn headers_round_trip() {
    let mut p = Provider::default();
    p.headers = vec![header("A", "1"), header("B", "")];
    let mut f = HeaderListField::build();
    f.load(&p);
    let mut q = Provider::default();
    f.store(&mut q);
    assert_eq!(q.headers, p.headers);
}

#[test]
fn blank_header_names_are_dropped() {
    let mut f = HeaderListField::build();
    f.add_row(" A ", " 1 ");
    f.add_row("", "x");
    f.add_row("B", "2");
    f.add_row(" \t", "y");
    let mut p = Provider::default();
    f.store(&mut p);
    assert_eq!(p.headers, vec![header("A", "1"), header("B", "2")]);
    f.remove_row(0);
    f.store(&mut p);
    assert_eq!(p.headers, vec![header("B", "2")]);
}
