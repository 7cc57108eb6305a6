//! The modal dialogs: the provider editor and the cache settings. Both work
//! on the state of the application directly.

use crate::app_state::AppState;
#[allow(unused_imports)]
use crate::app_state::AppModel;
use crate::config::CachePolicy;
#[allow(unused_imports)]
use crate::config::{ConfigModel, PolicyModel, ProviderModel};
use crate::text;
use crate::ui::field;
use crate::ui::provider_list;
use crate::ui::provider_list::Refusal;
use vstd::prelude::*;

verus! {

/// The active provider once a list of `len` is in force: the same one, or
/// the last one if there are not that many.
pub open spec fn kept_active(active: usize, len: int) -> int {
    if len > 0 && active >= len {
        len - 1
    } else {
        active as int
    }
}

/// The state with another provider list.
pub open spec fn with_providers<T>(m: AppModel<T>, ps: Seq<ProviderModel>) -> AppModel<T> {
    AppModel::<T> {
        config: ConfigModel { providers: ps, ..m.config },
        active_provider: kept_active(m.active_provider, ps.len() as int) as usize,
        ..m
    }
}

/// Clamps the active provider to the list.
fn after_change<T>(state: &mut AppState<T>)
    ensures
        final(state)@ == with_providers(old(state)@, old(state)@.config.providers),
        old(state).wf() ==> final(state).wf(),
{
    let len: usize = state.config.providers.len();
    if len > 0 && state.active_provider >= len {
        state.active_provider = len - 1;
    }
}

/// Appends a provider to edit, and returns the row to select.
pub fn add_provider<T>(state: &mut AppState<T>) -> (r: usize)
    requires
        old(state).wf(),
    ensures
        final(state).wf(),
        r == old(state)@.config.providers.len(),
        final(state)@ == with_providers(
            old(state)@,
            provider_list::list_with_added(old(state)@.config.providers),
        ),
{
    let row: usize = provider_list::add(&mut state.config.providers);
    after_change(state);
    row
}

/// Drops the selected provider, never below one, and returns the row to
/// select.
pub fn remove_provider<T>(
    state: &mut AppState<T>,
    selected: Option<usize>,
) -> (r: Result<usize, Refusal>)
    requires
        old(state).wf(),
        selected is Some && old(state)@.config.providers.len() > 1 ==> selected->0 < old(
            state,
        )@.config.providers.len(),
    ensures
        final(state).wf(),
        match provider_list::removal(old(state)@.config.providers, selected) {
            Ok(rest) => {
                &&& r is Ok
                &&& r->Ok_0 == provider_list::row_after_removal(
                    selected->0 as int,
                    old(state)@.config.providers.len() as int,
                )
                &&& final(state)@ == with_providers(old(state)@, rest)
            },
            Err(refusal) => r == Err::<usize, Refusal>(refusal) && *final(state) == *old(state),
        },
{
    let r = provider_list::remove(&mut state.config.providers, selected);
    if r.is_ok() {
        after_change(state);
    }
    r
}

/// The provider list with the form put into row `idx`, if there is one. Of
/// the zoom limit the low byte counts.
pub open spec fn edited(
    ps: Seq<ProviderModel>,
    idx: usize,
    name: Seq<char>,
    url: Seq<char>,
    tms: bool,
    max_zoom: i32,
) -> Seq<ProviderModel> {
    if idx < ps.len() {
        ps.update(
            idx as int,
            ProviderModel {
                name: text::trim(name),
                url: text::trim(url),
                tms,
                max_zoom: (max_zoom as int % 256) as u8,
                ..ps[idx as int]
            },
        )
    } else {
        ps
    }
}

/// Puts the form into the selected provider, if it has a name and a
/// template, and returns the row to select.
pub fn apply_provider<T>(
    state: &mut AppState<T>,
    selected: Option<usize>,
    name_entry: &str,
    url_entry: &str,
    tms: bool,
    zoom_spin: i32,
) -> (r: Result<usize, Refusal>)
    requires
        old(state).wf(),
    ensures
        final(state).wf(),
        match selected {
            None => {
                &&& r == Err::<usize, Refusal>(Refusal::NothingToEdit)
                &&& *final(state) == *old(state)
            },
            Some(idx) => if text::trim(name_entry@).len() == 0 || text::trim(url_entry@).len()
                == 0 {
                &&& r == Err::<usize, Refusal>(Refusal::Incomplete)
                &&& *final(state) == *old(state)
            } else {
                &&& r == Ok::<usize, Refusal>(idx)
                &&& final(state)@ == with_providers(
                    old(state)@,
                    edited(
                        old(state)@.config.providers,
                        idx,
                        name_entry@,
                        url_entry@,
                        tms,
                        zoom_spin,
                    ),
                )
            },
        },
{
    let idx: usize = match selected {
        Some(i) => i,
        None => {
            return Err(Refusal::NothingToEdit);
        },
    };
    let name = text::trimmed(name_entry);
    let url = text::trimmed(url_entry);
    if name.as_str().is_empty() || url.as_str().is_empty() {
        return Err(Refusal::Incomplete);
    }
    if idx < state.config.providers.len() {
        let mut p = state.config.providers[idx].clone();
        p.name = name;
        p.url = url;
        p.tms = tms;
        p.max_zoom = low_byte(zoom_spin);
        state.config.providers.set(idx, p);
    }
    proof {
        assert(state@.config.providers =~= edited(
            old(state)@.config.providers,
            idx,
            name_entry@,
            url_entry@,
            tms,
            zoom_spin,
        ));
    }
    after_change(state);
    Ok(idx)
}

/// The low byte of a whole number.
fn low_byte(value: i32) -> (r: u8)
    ensures
        r == (value as int) % 256,
{
    let count: u64 = field::spin_count(value);
    (count % 256) as u8
}

/// What the widgets of the settings dialog are handed: directory, size limit,
/// age limit. A spin button brings a number into its range.
pub fn settings_shown<T>(state: &AppState<T>) -> (r: (String, u64, u64))
    ensures
        r.0@ == field::or_empty(state@.config.cache.directory),
        r.1 == state@.config.cache.max_size_mb,
        r.2 == state@.config.cache.max_age_days,
{
    let directory = match &state.config.cache.directory {
        Some(d) => d.clone(),
        None => String::new(),
    };
    (directory, state.config.cache.max_size_mb, state.config.cache.max_age_days)
}

/// Puts the settings into the configuration; a blank directory stands for
/// the default one.
pub fn save_settings<T>(state: &mut AppState<T>, dir_entry: &str, size_spin: i32, age_spin: i32)
    requires
        old(state).wf(),
    ensures
        final(state).wf(),
        final(state)@ == (AppModel::<T> {
            config: ConfigModel {
                cache: PolicyModel {
                    directory: field::unless_blank(dir_entry@),
                    max_size_mb: field::counted(size_spin),
                    max_age_days: field::counted(age_spin),
                },
                ..old(state)@.config
            },
            ..old(state)@
        }),
{
    state.config.cache = CachePolicy {
        directory: field::optional_entry(dir_entry),
        max_size_mb: field::spin_count(size_spin),
        max_age_days: field::spin_count(age_spin),
    };
}

/// Whatever the provider editor does to the list, the active provider is one
/// of the list afterwards, and the same one as before if it can be.
pub proof fn law_active_provider_exists<T>(m: AppModel<T>, ps: Seq<ProviderModel>)
    requires
        0 < ps.len() <= usize::MAX,
    ensures
        with_providers(m, ps).active_provider < ps.len(),
        m.active_provider < ps.len() ==> with_providers(m, ps).active_provider
            == m.active_provider,
{
}

/// The form of the provider editor, with white space `a` and `b` around what
/// was typed, goes into the selected row and no other. It leaves the key
/// source and the headers of every provider as they were.
pub proof fn law_editor_changes_the_selected_row(
    ps: Seq<ProviderModel>,
    idx: usize,
    a: Seq<char>,
    b: Seq<char>,
    name: Seq<char>,
    url: Seq<char>,
    tms: bool,
    max_zoom: i32,
    i: int,
)
    requires
        0 <= i < ps.len(),
        text::all_white(a),
        text::all_white(b),
        text::is_core(name),
        text::is_core(url),
    ensures
        ({
            let after = edited(ps, idx, a + name + b, a + url + b, tms, max_zoom);
            &&& after.len() == ps.len()
            &&& after[i].api_key_source == ps[i].api_key_source
            &&& after[i].headers == ps[i].headers
            &&& i != idx ==> after[i] == ps[i]
            &&& i == idx ==> {
                &&& after[i].name == name
                &&& after[i].url == url
                &&& after[i].tms == tms
                &&& (max_zoom - after[i].max_zoom) % 256 == 0
                &&& 0 <= max_zoom < 256 ==> after[i].max_zoom == max_zoom
            }
        }),
{
    text::law_trim_removes_white_space_only(a, name, b);
    text::law_trim_removes_white_space_only(a, url, b);
}

/// Another provider list leaves everything else of the state as it was, but
/// for an active provider that is no longer in the list: the last one takes
/// its place.
pub proof fn law_new_list_leaves_the_rest<T>(m: AppModel<T>, ps: Seq<ProviderModel>)
    requires
        ps.len() <= usize::MAX,
    ensures
        ({
            let after = with_providers(m, ps);
            &&& after.config.providers == ps
            &&& after.config.general == m.config.general
            &&& after.config.cache == m.config.cache
            &&& after.config_path == m.config_path
            &&& after.map == m.map
            &&& after.pixbufs == m.pixbufs
            &&& after.inflight == m.inflight
            &&& after.last_pointer == m.last_pointer
            &&& after.drag_start_center == m.drag_start_center
            &&& after.last_click_lonlat == m.last_click_lonlat
            &&& m.active_provider < ps.len() || ps.len() == 0 ==> after.active_provider
                == m.active_provider
            &&& 0 < ps.len() <= m.active_provider ==> after.active_provider == ps.len() - 1
        }),
{
}

} // verus!
