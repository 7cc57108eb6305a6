use waltzgps::app_state::AppState;
use waltzgps::config::{Config, Provider, Real};
use waltzgps::geo::MapState;
use waltzgps::paths::FsPath;
use waltzgps::ui::dialogs::{
    add_provider, apply_provider, remove_provider, save_settings, settings_shown,
};
use waltzgps::ui::field::FieldValue;
use waltzgps::ui::preferences::{general_values, provider_values, Preferences};
use waltzgps::ui::provider_list::{save_message, Refusal};

fn named(name: &str) -> Provider {
    Provider { name: name.into(), url: "u".into(), ..Provider::default() }
}

fn state(names: &[&str], active: usize) -> AppState<()> {
    let zero = Real { bits: 0 };
    let config =
        Config { providers: names.iter().map(|n| named(n)).collect(), ..Config::default() };
    let mut s = AppState::new(
        config,
        FsPath::from_text("/c"),
        MapState { center_lon: zero, center_lat: zero, zoom: 3 },
        String::new(),
    );
    s.active_provider = active;
    s
}

fn names(c: &Config) -> Vec<&str> {
    c.providers.iter().map(|p| p.name.as_str()).collect()
}

fn form(name: &str, url: &str) -> Vec<FieldValue> {
    vec![
        FieldValue::Text(name.into()),
        FieldValue::Text(url.into()),
        FieldValue::Bool(true),
        FieldValue::U64(11),
    ]
}

#[test]
fn a_dialog_opens_on_a_copy() {
    let s = state(&["a", "b"], 1);
    let p = Preferences::open(&s);
    assert_eq!((names(&p.draft), p.draft_active_provider, p.dirty), (vec!["a", "b"], 1, false));
    assert!(!p.ok_commits());
    assert_eq!(p.initial_provider().name, "a");
    assert_eq!(Preferences::open(&state(&[], 0)).initial_provider().max_zoom, 19);
}

#[test]
fn touching_a_setting_makes_it_dirty() {
    let mut p = Preferences::open(&state(&["a"], 0));
    p.mark_dirty();
    assert!(p.ok_commits());
}

#[test]
fn providers_are_added_at_the_end() {
    let mut p = Preferences::open(&state(&["a"], 0));
    assert_eq!(p.add(), 1);
    assert_eq!(names(&p.draft), vec!["a", "New provider"]);
    let added = &p.draft.providers[1];
    assert_eq!(
        (added.url.as_str(), added.tms, added.max_zoom),
        ("https://host/{z}/{x}/{y}.png", false, 19)
    );
    assert!(p.dirty);
    // Removing it again restores the list.
    assert_eq!(p.remove(Some(1)), Ok(0));
    assert_eq!(names(&p.draft), vec!["a"]);
}

#[test]
fn the_last_provider_stays() {
    let mut p = Preferences::open(&state(&["a", "b", "c"], 2));
    assert_eq!(p.remove(None), Err(Refusal::NothingToRemove));
    assert!(!p.dirty);
    assert_eq!(p.remove(Some(0)), Ok(0));
    // The active index is not adjusted.
    assert_eq!((names(&p.draft), p.draft_active_provider), (vec!["b", "c"], 2));
    assert_eq!(p.remove(Some(1)), Ok(0));
    assert_eq!(p.remove(Some(0)), Err(Refusal::LastProvider));
    assert_eq!(p.remove(Some(5)), Err(Refusal::LastProvider));
    assert_eq!(names(&p.draft), vec!["b"]);
}

#[test]
fn moving_keeps_the_active_provider() {
    let mut p = Preferences::open(&state(&["a", "b", "c"], 1));
    assert_eq!(p.reorder(None, true), Err(Refusal::NothingToMove));
    assert_eq!(p.reorder(Some(0), true), Ok(None));
    assert_eq!(p.reorder(Some(2), false), Ok(None));
    assert!(!p.dirty);
    assert_eq!(p.reorder(Some(1), true), Ok(Some(0)));
    assert_eq!((names(&p.draft), p.draft_active_provider), (vec!["b", "a", "c"], 0));
    assert!(p.dirty);
    assert_eq!(p.reorder(Some(1), false), Ok(Some(2)));
    assert_eq!((names(&p.draft), p.draft_active_provider), (vec!["b", "c", "a"], 0));
    assert_eq!(p.reorder(Some(1), true), Ok(Some(0)));
    assert_eq!((names(&p.draft), p.draft_active_provider), (vec!["c", "b", "a"], 1));
}

#[test]
fn moving_back_restores_the_list() {
    let mut p = Preferences::open(&state(&["a", "b", "c"], 1));
    assert_eq!(p.reorder(Some(2), true), Ok(Some(1)));
    assert_eq!(p.reorder(Some(1), false), Ok(Some(2)));
    assert_eq!((names(&p.draft), p.draft_active_provider), (vec!["a", "b", "c"], 1));
}

#[test]
fn forms_are_applied_to_the_draft() {
    let mut p = Preferences::open(&state(&["a", "b"], 0));
    assert_eq!(p.apply_to_list(None, &form("x", "y")), Err(Refusal::NothingToEdit));
    assert_eq!(p.apply_to_list(Some(2), &form("x", "y")), Ok(None));
    assert_eq!(p.apply_to_list(Some(1), &form("", "y")), Err(Refusal::Incomplete));
    assert_eq!(p.apply_to_list(Some(1), &form("x", "")), Err(Refusal::Incomplete));
    assert_eq!((names(&p.draft), p.dirty), (vec!["a", "b"], false));
    assert_eq!(p.apply_to_list(Some(1), &form("x", "y")), Ok(Some(1)));
    let q = &p.draft.providers[1];
    assert_eq!((q.name.as_str(), q.url.as_str(), q.tms, q.max_zoom), ("x", "y", true, 11));
    assert!(p.dirty);
}

#[test]
fn a_commit_takes_the_draft_over() {
    let mut s = state(&["a", "b"], 1);
    let mut p = Preferences::open(&s);
    p.remove(Some(0)).unwrap();
    let mut general = general_values(&p.draft);
    general[2] = FieldValue::U64(7);
    assert_eq!(p.commit(&mut s, Some(0), &form("x", "y"), &general), Ok(()));
    assert_eq!((names(&s.config), s.active_provider), (vec!["x"], 0));
    assert_eq!(s.config.cache.max_size_mb, 7);
    assert_eq!((names(&p.draft), p.dirty), (vec!["x"], false));
    assert_eq!(p.draft.cache.max_size_mb, 7);
}

#[test]
fn a_refused_commit_leaves_the_application_alone() {
    let mut s = state(&["a", "b"], 1);
    let mut p = Preferences::open(&s);
    p.add();
    let general = general_values(&p.draft);
    assert_eq!(
        p.commit(&mut s, Some(2), &form("", "y"), &general),
        Err(Refusal::IncompleteList)
    );
    assert_eq!((names(&s.config), s.active_provider), (vec!["a", "b"], 1));
    // The form stays in the draft.
    assert_eq!((names(&p.draft), p.dirty), (vec!["a", "b", ""], true));
}

#[test]
fn an_untouched_dialog_commits_nothing_new() {
    let mut s = state(&["a", "b"], 1);
    let mut p = Preferences::open(&s);
    let shown = provider_values(&p.draft.providers[1]);
    let general = general_values(&p.draft);
    assert_eq!(p.commit(&mut s, Some(1), &shown, &general), Ok(()));
    assert_eq!((names(&s.config), s.active_provider), (vec!["a", "b"], 1));
    assert_eq!(s.config.cache.max_age_days, 30);
    assert_eq!(p.commit(&mut s, None, &shown, &general), Ok(()));
}

#[test]
fn an_empty_list_is_not_committed() {
    let mut s = state(&[], 0);
    let mut p = Preferences::open(&s);
    let general = general_values(&p.draft);
    assert_eq!(
        p.commit(&mut s, None, &form("x", "y"), &general),
        Err(Refusal::IncompleteList)
    );
}

#[test]
fn refusals_in_words() {
    let said: Vec<_> = [
        Refusal::NothingToRemove,
        Refusal::LastProvider,
        Refusal::NothingToMove,
        Refusal::NothingToEdit,
        Refusal::Incomplete,
        Refusal::IncompleteList,
    ]
    .iter()
    .map(|r| r.message())
    .collect();
    assert_eq!(
        said,
        vec![
            "Select a provider to remove.",
            "At least one provider is required.",
            "Select a provider to move.",
            "Select a provider to edit.",
            "Name and URL are required.",
            "Every provider needs a non-empty name and URL.",
        ]
    );
    assert_eq!(save_message(None), "Saved.");
    assert_eq!(save_message(Some("disk full".into())), "Save failed: disk full");
}

#[test]
fn the_editor_works_on_the_state() {
    let mut s = state(&["a", "b"], 1);
    assert_eq!(add_provider(&mut s), 2);
    assert_eq!((names(&s.config), s.active_provider), (vec!["a", "b", "New provider"], 1));
    assert_eq!(remove_provider(&mut s, None), Err(Refusal::NothingToRemove));
    assert_eq!(remove_provider(&mut s, Some(2)), Ok(1));
    assert_eq!(remove_provider(&mut s, Some(1)), Ok(0));
    // The active provider was the one that is gone.
    assert_eq!((names(&s.config), s.active_provider), (vec!["a"], 0));
    assert_eq!(remove_provider(&mut s, Some(0)), Err(Refusal::LastProvider));
    assert_eq!(remove_provider(&mut s, Some(5)), Err(Refusal::LastProvider));
}

#[test]
fn the_editor_applies_its_form() {
    let mut s = state(&["a", "b"], 1);
    assert_eq!(apply_provider(&mut s, None, "x", "y", true, 5), Err(Refusal::NothingToEdit));
    assert_eq!(apply_provider(&mut s, Some(1), " ", "y", true, 5), Err(Refusal::Incomplete));
    assert_eq!(apply_provider(&mut s, Some(1), "x", "\n", true, 5), Err(Refusal::Incomplete));
    assert_eq!(apply_provider(&mut s, Some(1), " x ", " y ", true, 5), Ok(1));
    let q = &s.config.providers[1];
    assert_eq!((q.name.as_str(), q.url.as_str(), q.tms, q.max_zoom), ("x", "y", true, 5));
    assert_eq!(apply_provider(&mut s, Some(7), "z", "y", true, 5), Ok(7));
    assert_eq!(names(&s.config), vec!["a", "x"]);
    for zoom in [300, -1, i32::MIN, 22] {
        apply_provider(&mut s, Some(0), "a", "u", false, zoom).unwrap();
        assert_eq!(s.config.providers[0].max_zoom, zoom as u8);
    }
}

#[test]
fn settings_are_shown_and_saved() {
    let mut s = state(&["a"], 0);
    assert_eq!(settings_shown(&s), (String::new(), 500, 30));
    save_settings(&mut s, " ~/t ", 7, 0);
    assert_eq!(settings_shown(&s), ("~/t".to_string(), 7, 0));
    save_settings(&mut s, "  ", 1, 2);
    assert_eq!(s.config.cache.directory, None);
    save_settings(&mut s, "", -1, 2);
    assert_eq!(s.config.cache.max_size_mb, u64::MAX);
}

#[test]
fn what_is_committed_can_be_loaded() {
    let mut s = state(&["a", "b"], 0);
    let mut p = Preferences::open(&s);
    p.add();
    p.reorder(Some(0), false).unwrap();
    p.remove(Some(1)).unwrap();
    let general = general_values(&p.draft);
    assert_eq!(p.commit(&mut s, Some(0), &form("x", "y"), &general), Ok(()));
    assert_eq!(names(&Config::load(Some(s.config.clone())).unwrap()), vec!["x", "New provider"]);
}
