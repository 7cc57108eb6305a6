//! The preferences dialog: general and cache settings and the provider list,
//! with OK, Cancel and Apply.
//!
//! All edits happen on a draft; nothing reaches the state of the application
//! until OK or Apply commits it, and Cancel drops the draft.

use crate::app_state::AppState;
#[allow(unused_imports)]
use crate::app_state::AppModel;
use crate::config;
use crate::config::{Config, Provider, Real};
#[allow(unused_imports)]
use crate::config::{ConfigModel, General, PolicyModel, ProviderModel};
use crate::text;
use crate::ui::field;
use crate::ui::field::{Field, FieldValue};
#[allow(unused_imports)]
use crate::ui::field::{FieldKind, ValueModel};
use crate::ui::provider_list;
use crate::ui::provider_list::Refusal;
use vstd::prelude::*;

verus! {

/// The bit pattern of five.
pub const FIVE_BITS: u64 = 0x4014_0000_0000_0000;

/// The kinds of the fields of the general tab.
pub open spec fn general_kinds() -> Seq<FieldKind> {
    seq![
        FieldKind::F64Spin {
            min: Real { bits: config::TENTH_BITS },
            max: Real { bits: FIVE_BITS },
            step: Real { bits: config::TENTH_BITS },
            digits: 2,
        },
        FieldKind::OptionalText,
        FieldKind::U64Spin { min: 0, max: 1_000_000, step: 50 },
        FieldKind::U64Spin { min: 0, max: 36_500, step: 1 },
    ]
}

/// The kinds of the fields of the provider form.
pub open spec fn provider_kinds() -> Seq<FieldKind> {
    seq![
        FieldKind::Text,
        FieldKind::Text,
        FieldKind::Bool,
        FieldKind::U64Spin { min: 1, max: 22, step: 1 },
    ]
}

/// The kinds of a row of fields.
pub open spec fn kinds_of(fields: Seq<Field>) -> Seq<FieldKind> {
    fields.map_values(|f: Field| f.kind)
}

/// Fields shown on the general tab.
pub fn general_fields() -> (r: Vec<Field>)
    ensures
        kinds_of(r@) == general_kinds(),
        r@[0].label@ == "Mouse-wheel sensitivity"@,
        r@[1].label@ == "Cache directory"@,
        r@[2].label@ == "Max cache size (MB, 0 = unlimited)"@,
        r@[3].label@ == "Max cache age (days, 0 = never)"@,
{
    let tenth = Real { bits: config::TENTH_BITS };
    let r = vec![
        Field::f64_spin("Mouse-wheel sensitivity", tenth, Real { bits: FIVE_BITS }, tenth, 2),
        Field::optional_text("Cache directory"),
        Field::u64_spin("Max cache size (MB, 0 = unlimited)", 0, 1_000_000, 50),
        Field::u64_spin("Max cache age (days, 0 = never)", 0, 36_500, 1),
    ];
    proof {
        assert(kinds_of(r@) =~= general_kinds());
    }
    r
}

/// Fields shown in the provider form.
pub fn provider_fields() -> (r: Vec<Field>)
    ensures
        kinds_of(r@) == provider_kinds(),
        r@[0].label@ == "Name"@,
        r@[1].label@ == "URL template"@,
        r@[2].label@ == "TMS (flip Y)"@,
        r@[3].label@ == "Max zoom"@,
{
    let r = vec![
        Field::text("Name"),
        Field::text("URL template"),
        Field::bool_switch("TMS (flip Y)"),
        Field::u64_spin("Max zoom", 1, 22, 1),
    ];
    proof {
        assert(kinds_of(r@) =~= provider_kinds());
    }
    r
}

/// Whether these are values of the general tab.
pub open spec fn general_shaped(values: Seq<ValueModel>) -> bool {
    &&& values.len() == 4
    &&& values[0] is F64
    &&& values[1] is OptionalText
    &&& values[2] is U64
    &&& values[3] is U64
}

/// Whether these are values of the provider form.
pub open spec fn provider_shaped(values: Seq<ValueModel>) -> bool {
    &&& values.len() == 4
    &&& values[0] is Text
    &&& values[1] is Text
    &&& values[2] is Bool
    &&& values[3] is U64
}

/// The values of the general tab for a configuration.
pub open spec fn general_of(c: ConfigModel) -> Seq<ValueModel> {
    seq![
        ValueModel::F64(c.general.scroll_sensitivity),
        ValueModel::OptionalText(c.cache.directory),
        ValueModel::U64(c.cache.max_size_mb),
        ValueModel::U64(c.cache.max_age_days),
    ]
}

/// A configuration with the values of the general tab put in.
pub open spec fn with_general(c: ConfigModel, values: Seq<ValueModel>) -> ConfigModel {
    ConfigModel {
        general: General { scroll_sensitivity: values[0]->F64_0, ..c.general },
        cache: PolicyModel {
            directory: values[1]->OptionalText_0,
            max_size_mb: values[2]->U64_0,
            max_age_days: values[3]->U64_0,
        },
        providers: c.providers,
    }
}

/// The values of the provider form for a provider.
pub open spec fn form_of(p: ProviderModel) -> Seq<ValueModel> {
    seq![
        ValueModel::Text(p.name),
        ValueModel::Text(p.url),
        ValueModel::Bool(p.tms),
        ValueModel::U64(p.max_zoom as u64),
    ]
}

/// A provider with the values of the provider form put in. Of the zoom limit
/// the low byte counts. Key source and headers stay.
pub open spec fn with_form(p: ProviderModel, values: Seq<ValueModel>) -> ProviderModel {
    ProviderModel {
        name: values[0]->Text_0,
        url: values[1]->Text_0,
        tms: values[2]->Bool_0,
        max_zoom: (values[3]->U64_0 % 256) as u8,
        ..p
    }
}

/// The values of the general tab.
pub fn general_values(c: &Config) -> (r: Vec<FieldValue>)
    ensures
        field::value_views(r@) == general_of(c@),
{
    let r = vec![
        FieldValue::F64(c.general.scroll_sensitivity),
        FieldValue::OptionalText(
            match &c.cache.directory {
                Some(d) => Some(d.clone()),
                None => None,
            },
        ),
        FieldValue::U64(c.cache.max_size_mb),
        FieldValue::U64(c.cache.max_age_days),
    ];
    proof {
        assert(field::value_views(r@) =~= general_of(c@));
    }
    r
}

/// Puts the values of the general tab into a configuration.
pub fn set_general(c: &mut Config, values: &Vec<FieldValue>)
    requires
        general_shaped(field::value_views(values@)),
    ensures
        final(c)@ == with_general(old(c)@, field::value_views(values@)),
        final(c).providers == old(c).providers,
{
    proof {
        let views = field::value_views(values@);
        assert(views[0] == values@[0]@);
        assert(views[1] == values@[1]@);
        assert(views[2] == values@[2]@);
        assert(views[3] == values@[3]@);
    }
    if let FieldValue::F64(x) = &values[0] {
        c.general.scroll_sensitivity = *x;
    }
    if let FieldValue::OptionalText(d) = &values[1] {
        c.cache.directory = match d {
            Some(d) => Some(d.clone()),
            None => None,
        };
    }
    if let FieldValue::U64(n) = &values[2] {
        c.cache.max_size_mb = *n;
    }
    if let FieldValue::U64(n) = &values[3] {
        c.cache.max_age_days = *n;
    }
}

/// The values of the provider form.
pub fn provider_values(p: &Provider) -> (r: Vec<FieldValue>)
    ensures
        field::value_views(r@) == form_of(p@),
{
    let r = vec![
        FieldValue::Text(p.name.clone()),
        FieldValue::Text(p.url.clone()),
        FieldValue::Bool(p.tms),
        FieldValue::U64(p.max_zoom as u64),
    ];
    proof {
        assert(field::value_views(r@) =~= form_of(p@));
    }
    r
}

/// Puts the values of the provider form into a provider.
pub fn set_provider(p: &mut Provider, values: &Vec<FieldValue>)
    requires
        provider_shaped(field::value_views(values@)),
    ensures
        final(p)@ == with_form(old(p)@, field::value_views(values@)),
        final(p)@.api_key_source == old(p)@.api_key_source,
        final(p)@.headers == old(p)@.headers,
{
    proof {
        let views = field::value_views(values@);
        assert(views[0] == values@[0]@);
        assert(views[1] == values@[1]@);
        assert(views[2] == values@[2]@);
        assert(views[3] == values@[3]@);
    }
    if let FieldValue::Text(s) = &values[0] {
        p.name = s.clone();
    }
    if let FieldValue::Text(s) = &values[1] {
        p.url = s.clone();
    }
    if let FieldValue::Bool(b) = &values[2] {
        p.tms = *b;
    }
    if let FieldValue::U64(n) = &values[3] {
        p.max_zoom = (*n % 256) as u8;
    }
}

/// What the dialog works on.
#[derive(Debug)]
pub struct Preferences {
    pub draft: Config,
    pub draft_active_provider: usize,
    /// Whether anything was touched since the dialog opened or last
    /// committed. Apply can be pressed exactly then.
    pub dirty: bool,
}

/// The value of a [`Preferences`].
pub struct DraftModel {
    pub draft: ConfigModel,
    pub draft_active_provider: usize,
    pub dirty: bool,
}

impl View for Preferences {
    type V = DraftModel;

    open spec fn view(&self) -> DraftModel {
        DraftModel {
            draft: self.draft@,
            draft_active_provider: self.draft_active_provider,
            dirty: self.dirty,
        }
    }
}

/// A draft with another provider list, touched.
pub open spec fn with_list(m: DraftModel, ps: Seq<ProviderModel>, active: usize) -> DraftModel {
    DraftModel {
        draft: ConfigModel { providers: ps, ..m.draft },
        draft_active_provider: active,
        dirty: true,
    }
}

/// The row that the selected one changes places with, if it can.
pub open spec fn neighbour(len: int, idx: usize, up: bool) -> Option<int> {
    if up && idx == 0 || !up && idx + 1 >= len || idx >= len {
        None
    } else if up {
        Some(idx - 1)
    } else {
        Some(idx + 1)
    }
}

/// The list with two of its providers swapped.
pub open spec fn swapped(ps: Seq<ProviderModel>, i: int, j: int) -> Seq<ProviderModel> {
    ps.update(i, ps[j]).update(j, ps[i])
}

/// Where the provider at `active` is once two others, or it and another,
/// were swapped.
pub open spec fn followed(active: int, i: int, j: int) -> int {
    if active == i {
        j
    } else if active == j {
        i
    } else {
        active
    }
}

/// What pressing one of the two arrow buttons comes to: a refusal, nothing,
/// or a swap.
pub open spec fn reordered(m: DraftModel, selected: Option<usize>, up: bool) -> DraftModel {
    match selected {
        Some(idx) => match neighbour(m.draft.providers.len() as int, idx, up) {
            Some(target) => with_list(
                m,
                swapped(m.draft.providers, idx as int, target),
                followed(m.draft_active_provider as int, idx as int, target) as usize,
            ),
            None => m,
        },
        None => m,
    }
}

/// The provider list with the form put into the selected row.
pub open spec fn flushed(
    ps: Seq<ProviderModel>,
    selected: Option<usize>,
    form: Seq<ValueModel>,
) -> Seq<ProviderModel> {
    match selected {
        Some(idx) => if idx < ps.len() {
            ps.update(idx as int, with_form(ps[idx as int], form))
        } else {
            ps
        },
        None => ps,
    }
}

/// The active provider after a commit: the draft's one, or the last one if
/// there are not that many.
pub open spec fn clamped(active: usize, len: int) -> int {
    if active < len {
        active as int
    } else {
        len - 1
    }
}

/// The configuration that a commit proposes.
pub open spec fn proposed(
    m: DraftModel,
    selected: Option<usize>,
    provider_form: Seq<ValueModel>,
    general_form: Seq<ValueModel>,
) -> ConfigModel {
    with_general(
        ConfigModel { providers: flushed(m.draft.providers, selected, provider_form), ..m.draft },
        general_form,
    )
}

impl Preferences {
    /// Opens the dialog on a copy of the configuration.
    pub fn open<T>(state: &AppState<T>) -> (r: Preferences)
        ensures
            r@ == (DraftModel {
                draft: state@.config,
                draft_active_provider: state.active_provider,
                dirty: false,
            }),
    {
        Preferences {
            draft: state.config.clone(),
            draft_active_provider: state.active_provider,
            dirty: false,
        }
    }

    /// Notes that the user has touched a setting.
    pub fn mark_dirty(&mut self)
        ensures
            final(self)@ == (DraftModel { dirty: true, ..old(self)@ }),
    {
        self.dirty = true;
    }

    /// The provider that the form shows before any is selected: the first
    /// one, or a blank one.
    pub fn initial_provider(&self) -> (r: Provider)
        ensures
            r@ == (if self@.draft.providers.len() > 0 {
                self@.draft.providers[0]
            } else {
                config::blank_provider()
            }),
    {
        if self.draft.providers.len() > 0 {
            self.draft.providers[0].clone()
        } else {
            Provider::default()
        }
    }

    /// Appends a provider to edit, and returns the row to select.
    pub fn add(&mut self) -> (r: usize)
        ensures
            r == old(self)@.draft.providers.len(),
            final(self)@ == with_list(
                old(self)@,
                provider_list::list_with_added(old(self)@.draft.providers),
                old(self).draft_active_provider,
            ),
    {
        self.dirty = true;
        provider_list::add(&mut self.draft.providers)
    }

    /// Drops the selected provider, never below one, and returns the row to
    /// select. The index of the active provider is not adjusted.
    pub fn remove(&mut self, selected: Option<usize>) -> (r: Result<usize, Refusal>)
        requires
            selected is Some && old(self)@.draft.providers.len() > 1 ==> selected->0 < old(
                self,
            )@.draft.providers.len(),
        ensures
            match provider_list::removal(old(self)@.draft.providers, selected) {
                Ok(rest) => {
                    &&& r is Ok
                    &&& r->Ok_0 == provider_list::row_after_removal(
                        selected->0 as int,
                        old(self)@.draft.providers.len() as int,
                    )
                    &&& final(self)@ == with_list(
                        old(self)@,
                        rest,
                        old(self).draft_active_provider,
                    )
                },
                Err(refusal) => r == Err::<usize, Refusal>(refusal) && *final(self) == *old(self),
            },
    {
        let r = provider_list::remove(&mut self.draft.providers, selected);
        if r.is_ok() {
            self.dirty = true;
        }
        r
    }

    /// Swaps the selected provider with its neighbour above or below, keeping
    /// the index of the active provider on the same provider. Returns the
    /// row to select if there was a swap.
    pub fn reorder(&mut self, selected: Option<usize>, up: bool) -> (r: Result<Option<usize>, Refusal>)
        ensures
            final(self)@ == reordered(old(self)@, selected, up),
            r is Err <==> selected is None,
            r is Err ==> r->Err_0 == Refusal::NothingToMove,
            r is Ok ==> match neighbour(
                old(self)@.draft.providers.len() as int,
                selected->0,
                up,
            ) {
                Some(target) => r->Ok_0 is Some && r->Ok_0->0 == target,
                None => r->Ok_0 is None,
            },
    {
        let idx: usize = match selected {
            Some(i) => i,
            None => {
                return Err(Refusal::NothingToMove);
            },
        };
        let len: usize = self.draft.providers.len();
        if idx >= len || up && idx == 0 || !up && idx == len - 1 {
            return Ok(None);
        }
        let target: usize = if up {
            idx - 1
        } else {
            idx + 1
        };
        let a = self.draft.providers[idx].clone();
        let b = self.draft.providers[target].clone();
        self.draft.providers.set(idx, b);
        self.draft.providers.set(target, a);
        if self.draft_active_provider == idx {
            self.draft_active_provider = target;
        } else if self.draft_active_provider == target {
            self.draft_active_provider = idx;
        }
        self.dirty = true;
        proof {
            assert(self@.draft.providers =~= swapped(
                old(self)@.draft.providers,
                idx as int,
                target as int,
            ));
        }
        Ok(Some(target))
    }

    /// Puts the form into the selected provider of the draft, if it has a
    /// name and a template.
    pub fn apply_to_list(
        &mut self,
        selected: Option<usize>,
        form: &Vec<FieldValue>,
    ) -> (r: Result<Option<usize>, Refusal>)
        requires
            provider_shaped(field::value_views(form@)),
        ensures
            match selected {
                None => {
                    &&& r == Err::<Option<usize>, Refusal>(Refusal::NothingToEdit)
                    &&& final(self)@ == old(self)@
                },
                Some(idx) => {
                    let ps = old(self)@.draft.providers;
                    let values = field::value_views(form@);
                    if idx >= ps.len() {
                        &&& r == Ok::<Option<usize>, Refusal>(None)
                        &&& final(self)@ == old(self)@
                    } else if !provider_list::complete(with_form(ps[idx as int], values)) {
                        &&& r == Err::<Option<usize>, Refusal>(Refusal::Incomplete)
                        &&& final(self)@ == old(self)@
                    } else {
                        &&& r == Ok::<Option<usize>, Refusal>(selected)
                        &&& final(self)@ == with_list(
                            old(self)@,
                            flushed(ps, selected, values),
                            old(self).draft_active_provider,
                        )
                    }
                },
            },
    {
        let idx: usize = match selected {
            Some(i) => i,
            None => {
                return Err(Refusal::NothingToEdit);
            },
        };
        if idx >= self.draft.providers.len() {
            return Ok(None);
        }
        let mut p = self.draft.providers[idx].clone();
        set_provider(&mut p, form);
        if !provider_list::is_complete(&p) {
            return Err(Refusal::Incomplete);
        }
        self.draft.providers.set(idx, p);
        self.dirty = true;
        proof {
            assert(self@.draft.providers =~= flushed(
                old(self)@.draft.providers,
                selected,
                field::value_views(form@),
            ));
        }
        Ok(Some(idx))
    }

    /// Puts the form into the selected provider and, if every provider is
    /// complete then, makes the draft the configuration of the application.
    /// Where it is refused, the form stays in the draft and the application
    /// is as it was.
    pub fn commit<T>(
        &mut self,
        state: &mut AppState<T>,
        selected: Option<usize>,
        provider_form: &Vec<FieldValue>,
        general_form: &Vec<FieldValue>,
    ) -> (r: Result<(), Refusal>)
        requires
            old(state).wf(),
            provider_shaped(field::value_views(provider_form@)),
            general_shaped(field::value_views(general_form@)),
        ensures
            final(state).wf(),
            ({
                let flushed_list = flushed(
                    old(self)@.draft.providers,
                    selected,
                    field::value_views(provider_form@),
                );
                let new_config = proposed(
                    old(self)@,
                    selected,
                    field::value_views(provider_form@),
                    field::value_views(general_form@),
                );
                if provider_list::all_complete(flushed_list) {
                    &&& r is Ok
                    &&& final(state)@ == (AppModel::<T> {
                        config: new_config,
                        active_provider: clamped(
                            old(self).draft_active_provider,
                            flushed_list.len() as int,
                        ) as usize,
                        ..old(state)@
                    })
                    &&& final(self)@ == (DraftModel {
                        draft: new_config,
                        draft_active_provider: old(self).draft_active_provider,
                        dirty: false,
                    })
                } else {
                    &&& r == Err::<(), Refusal>(Refusal::IncompleteList)
                    &&& *final(state) == *old(state)
                    &&& final(self)@ == (DraftModel {
                        draft: ConfigModel { providers: flushed_list, ..old(self)@.draft },
                        ..old(self)@
                    })
                }
            }),
    {
        if let Some(idx) = selected {
            if idx < self.draft.providers.len() {
                let mut p = self.draft.providers[idx].clone();
                set_provider(&mut p, provider_form);
                self.draft.providers.set(idx, p);
            }
        }
        proof {
            assert(self@.draft.providers =~= flushed(
                old(self)@.draft.providers,
                selected,
                field::value_views(provider_form@),
            ));
        }
        let mut cfg = self.draft.clone();
        set_general(&mut cfg, general_form);
        if !provider_list::is_all_complete(&cfg.providers) {
            return Err(Refusal::IncompleteList);
        }
        let len: usize = cfg.providers.len();
        state.config = cfg.clone();
        state.active_provider = if self.draft_active_provider < len {
            self.draft_active_provider
        } else {
            len - 1
        };
        self.draft = cfg;
        self.dirty = false;
        Ok(())
    }

    /// Whether OK has to commit before it closes the dialog. With nothing
    /// touched it closes it at once, as Cancel does.
    pub fn ok_commits(&self) -> (r: bool)
        ensures
            r == self.dirty,
    {
        self.dirty
    }
}

/// Moving providers about never changes which one is active.
pub proof fn law_reorder_keeps_active(m: DraftModel, selected: Option<usize>, up: bool)
    requires
        m.draft_active_provider < m.draft.providers.len() <= usize::MAX,
    ensures
        ({
            let n = reordered(m, selected, up);
            &&& n.draft.providers.len() == m.draft.providers.len()
            &&& n.draft_active_provider < n.draft.providers.len()
            &&& n.draft.providers[n.draft_active_provider as int]
                == m.draft.providers[m.draft_active_provider as int]
        }),
{
}

/// Moving a provider and then moving it back restores list and active
/// provider.
pub proof fn law_reorder_is_undone(m: DraftModel, idx: usize, target: usize, up: bool)
    requires
        m.draft_active_provider < m.draft.providers.len() <= usize::MAX,
        neighbour(m.draft.providers.len() as int, idx, up) == Some(target as int),
    ensures
        ({
            let n = reordered(reordered(m, Some(idx), up), Some(target), !up);
            &&& n.draft == m.draft
            &&& n.draft_active_provider == m.draft_active_provider
        }),
{
    let n = reordered(reordered(m, Some(idx), up), Some(target), !up);
    assert(n.draft.providers =~= m.draft.providers);
}

/// Moving providers about loses none and invents none.
pub proof fn law_reorder_permutes(m: DraftModel, selected: Option<usize>, up: bool)
    ensures
        reordered(m, selected, up).draft.providers.to_multiset()
            == m.draft.providers.to_multiset(),
{
    if let Some(idx) = selected {
        let ps = m.draft.providers;
        if let Some(target) = neighbour(ps.len() as int, idx, up) {
            vstd::seq_lib::to_multiset_update(ps, idx as int, ps[target]);
            let once = ps.update(idx as int, ps[target]);
            vstd::seq_lib::to_multiset_update(once, target, ps[idx as int]);
            let all = ps.to_multiset();
            ps.to_multiset_ensures();
            assert(ps.contains(ps[idx as int]));
            assert(ps.contains(ps[target]));
            assert(once.to_multiset() =~= all.insert(ps[target]).remove(ps[idx as int]));
            assert(swapped(ps, idx as int, target).to_multiset() =~= all);
        }
    }
}

/// Whether a provider survives its form: name and template without white
/// space around them, and a zoom limit in the range of its spin button.
pub open spec fn provider_survives(p: ProviderModel) -> bool {
    &&& text::is_trimmed(p.name)
    &&& text::is_trimmed(p.url)
    &&& 1 <= p.max_zoom <= 22
}

/// Whether the settings of the general tab survive it: numbers in the ranges
/// of their spin buttons, and a directory, if there is one, that is not blank
/// and has no white space around it.
pub open spec fn general_survives(c: ConfigModel) -> bool {
    &&& field::is_number(c.general.scroll_sensitivity)
    &&& field::rank(Real { bits: config::TENTH_BITS }) <= field::rank(c.general.scroll_sensitivity)
        <= field::rank(Real { bits: FIVE_BITS })
    &&& c.cache.directory matches Some(d) ==> d.len() > 0 && text::is_trimmed(d)
    &&& c.cache.max_size_mb <= 1_000_000
    &&& c.cache.max_age_days <= 36_500
}

/// A form made of the fields of these kinds, handed the values of a provider,
/// is read back as it was, and changes nothing when it is applied.
pub proof fn law_untouched_form_changes_nothing(fields: Seq<Field>, p: ProviderModel)
    requires
        kinds_of(fields) == provider_kinds(),
        provider_survives(p),
    ensures
        ({
            let values = field::read_all(fields, field::shown_all(form_of(p)));
            &&& provider_shaped(values)
            &&& values == form_of(p)
            &&& with_form(p, values) == p
        }),
{
    assert(kinds_of(fields).len() == fields.len());
    assert forall|i: int| 0 <= i < fields.len() implies fields[i].kind == provider_kinds()[i] by {
        assert(kinds_of(fields)[i] == fields[i].kind);
    }
    field::law_form_round_trip(fields, form_of(p));
}

/// A general tab made of the fields of these kinds, handed the values of a
/// configuration, is read back as it was, and changes nothing when it is
/// applied.
pub proof fn law_untouched_tab_changes_nothing(fields: Seq<Field>, c: ConfigModel)
    requires
        kinds_of(fields) == general_kinds(),
        general_survives(c),
    ensures
        ({
            let values = field::read_all(fields, field::shown_all(general_of(c)));
            &&& general_shaped(values)
            &&& values == general_of(c)
            &&& with_general(c, values) == c
        }),
{
    assert(kinds_of(fields).len() == fields.len());
    assert forall|i: int| 0 <= i < fields.len() implies fields[i].kind == general_kinds()[i] by {
        assert(kinds_of(fields)[i] == fields[i].kind);
    }
    field::law_form_round_trip(fields, general_of(c));
}

/// After a commit the active provider is one of the list, and the list is
/// fit to be committed again as it is.
pub proof fn law_commit_leaves_valid_state(
    m: DraftModel,
    selected: Option<usize>,
    provider_form: Seq<ValueModel>,
    general_form: Seq<ValueModel>,
)
    requires
        provider_list::all_complete(flushed(m.draft.providers, selected, provider_form)),
    ensures
        ({
            let c = proposed(m, selected, provider_form, general_form);
            &&& provider_list::all_complete(c.providers)
            &&& 0 <= clamped(m.draft_active_provider, c.providers.len() as int)
                < c.providers.len()
        }),
{
}

/// Committing a dialog in which nothing was changed, with settings that
/// survive their forms, changes nothing.
pub proof fn law_untouched_dialog_changes_nothing(
    config: ConfigModel,
    active: usize,
    selected: usize,
    provider_form: Seq<Field>,
    general_form: Seq<Field>,
)
    requires
        active < config.providers.len(),
        selected < config.providers.len(),
        kinds_of(provider_form) == provider_kinds(),
        kinds_of(general_form) == general_kinds(),
        provider_survives(config.providers[selected as int]),
        general_survives(config),
    ensures
        ({
            let m = DraftModel { draft: config, draft_active_provider: active, dirty: false };
            let shown = field::shown_all(form_of(config.providers[selected as int]));
            let tab = field::shown_all(general_of(config));
            &&& proposed(
                m,
                Some(selected),
                field::read_all(provider_form, shown),
                field::read_all(general_form, tab),
            ) == config
            &&& clamped(active, config.providers.len() as int) == active
        }),
{
    let p = config.providers[selected as int];
    law_untouched_form_changes_nothing(provider_form, p);
    law_untouched_tab_changes_nothing(general_form, config);
    assert(flushed(config.providers, Some(selected), form_of(p)) =~= config.providers);
}

/// Whether no provider of a list names a blank key source.
pub open spec fn keys_present(ps: Seq<ProviderModel>) -> bool {
    forall|i: int| 0 <= i < ps.len() ==> !config::lacks_key(#[trigger] ps[i])
}

/// Whatever is done in the dialog, a configuration that could be loaded can
/// be loaded again once it is committed: no edit of the list blanks a key
/// source, and a commit leaves no list empty.
pub proof fn law_committed_config_is_acceptable(
    m: DraftModel,
    selected: Option<usize>,
    up: bool,
    provider_form: Seq<ValueModel>,
    general_form: Seq<ValueModel>,
)
    requires
        keys_present(m.draft.providers),
        selected is Some && m.draft.providers.len() > 1 ==> selected->0 < m.draft.providers.len(),
    ensures
        keys_present(provider_list::list_with_added(m.draft.providers)),
        provider_list::removal(m.draft.providers, selected) matches Ok(rest) ==> keys_present(rest),
        keys_present(reordered(m, selected, up).draft.providers),
        keys_present(flushed(m.draft.providers, selected, provider_form)),
        provider_list::all_complete(flushed(m.draft.providers, selected, provider_form))
            ==> config::acceptable(proposed(m, selected, provider_form, general_form)),
{
    let ps = m.draft.providers;
    if let Ok(rest) = provider_list::removal(ps, selected) {
        let gone = selected->0 as int;
        assert forall|i: int| 0 <= i < rest.len() implies !config::lacks_key(
            #[trigger] rest[i],
        ) by {
            if i < gone {
                assert(rest[i] == ps[i]);
            } else {
                assert(rest[i] == ps[i + 1]);
            }
        }
    }
}

/// Whatever the provider form holds, putting it into a provider leaves the
/// key source and the headers of the provider as they were.
pub proof fn law_form_leaves_key_source_and_headers(p: ProviderModel, values: Seq<ValueModel>)
    ensures
        with_form(p, values).api_key_source == p.api_key_source,
        with_form(p, values).headers == p.headers,
{
}

/// What the provider form holds is what the provider has afterwards: name,
/// template and switch as they are, and of the zoom limit the low byte, which
/// is all of it for a limit that the form can show. What the form shows of a
/// provider is what the provider has.
pub proof fn law_form_sets_what_it_shows(
    p: ProviderModel,
    name: Seq<char>,
    url: Seq<char>,
    tms: bool,
    zoom: u64,
)
    ensures
        ({
            let values = seq![
                ValueModel::Text(name),
                ValueModel::Text(url),
                ValueModel::Bool(tms),
                ValueModel::U64(zoom),
            ];
            let q = with_form(p, values);
            &&& provider_shaped(values)
            &&& q.name == name
            &&& q.url == url
            &&& q.tms == tms
            &&& q.max_zoom == zoom % 256
            &&& zoom < 256 ==> q.max_zoom == zoom
            &&& zoom < 256 ==> form_of(q) == values
        }),
{
    let values = seq![
        ValueModel::Text(name),
        ValueModel::Text(url),
        ValueModel::Bool(tms),
        ValueModel::U64(zoom),
    ];
    if zoom < 256 {
        assert(form_of(with_form(p, values)) =~= values);
    }
}

/// What the general tab holds is what the configuration has afterwards.
/// Everything that the tab does not show stays as it was.
pub proof fn law_tab_sets_what_it_shows(
    c: ConfigModel,
    sensitivity: Real,
    directory: Option<Seq<char>>,
    megabytes: u64,
    days: u64,
)
    ensures
        ({
            let values = seq![
                ValueModel::F64(sensitivity),
                ValueModel::OptionalText(directory),
                ValueModel::U64(megabytes),
                ValueModel::U64(days),
            ];
            let d = with_general(c, values);
            &&& general_shaped(values)
            &&& d.general.scroll_sensitivity == sensitivity
            &&& d.cache.directory == directory
            &&& d.cache.max_size_mb == megabytes
            &&& d.cache.max_age_days == days
            &&& d.general.pinch_zoom_enabled == c.general.pinch_zoom_enabled
            &&& d.general.pinch_zoom_sensitivity == c.general.pinch_zoom_sensitivity
            &&& d.providers == c.providers
            &&& general_of(d) == values
        }),
{
    let values = seq![
        ValueModel::F64(sensitivity),
        ValueModel::OptionalText(directory),
        ValueModel::U64(megabytes),
        ValueModel::U64(days),
    ];
    assert(general_of(with_general(c, values)) =~= values);
}

/// The form goes into the selected row and no other, and leaves every key
/// source and all headers of the list as they were. Without a row to go into
/// it changes nothing.
pub proof fn law_form_goes_into_the_selected_row(
    ps: Seq<ProviderModel>,
    selected: Option<usize>,
    form: Seq<ValueModel>,
    i: int,
)
    requires
        0 <= i < ps.len(),
    ensures
        ({
            let after = flushed(ps, selected, form);
            &&& after.len() == ps.len()
            &&& after[i].api_key_source == ps[i].api_key_source
            &&& after[i].headers == ps[i].headers
            &&& !(selected is Some && selected->0 == i) ==> after[i] == ps[i]
            &&& selected is Some && selected->0 == i && provider_shaped(form) ==> {
                &&& form[0] == ValueModel::Text(after[i].name)
                &&& form[1] == ValueModel::Text(after[i].url)
                &&& form[2] == ValueModel::Bool(after[i].tms)
                &&& form[3] matches ValueModel::U64(zoom) && after[i].max_zoom == zoom % 256
            }
        }),
{
}

/// A commit proposes the draft with the form in the selected row and the
/// settings of the general tab. No key source and no header changes, and no
/// setting that neither shows.
pub proof fn law_commit_proposes_the_draft(
    m: DraftModel,
    selected: Option<usize>,
    provider_form: Seq<ValueModel>,
    general_form: Seq<ValueModel>,
    i: int,
)
    requires
        0 <= i < m.draft.providers.len(),
        general_shaped(general_form),
    ensures
        ({
            let c = proposed(m, selected, provider_form, general_form);
            let before = m.draft.providers;
            &&& c.providers.len() == before.len()
            &&& c.providers[i].api_key_source == before[i].api_key_source
            &&& c.providers[i].headers == before[i].headers
            &&& !(selected is Some && selected->0 == i) ==> c.providers[i] == before[i]
            &&& c.providers == flushed(before, selected, provider_form)
            &&& general_form[0] == ValueModel::F64(c.general.scroll_sensitivity)
            &&& general_form[1] == ValueModel::OptionalText(c.cache.directory)
            &&& general_form[2] == ValueModel::U64(c.cache.max_size_mb)
            &&& general_form[3] == ValueModel::U64(c.cache.max_age_days)
            &&& c.general.pinch_zoom_enabled == m.draft.general.pinch_zoom_enabled
            &&& c.general.pinch_zoom_sensitivity == m.draft.general.pinch_zoom_sensitivity
        }),
{
    law_form_goes_into_the_selected_row(m.draft.providers, selected, provider_form, i);
}

/// The active provider after a commit is the draft's one, or the last one if
/// the list is shorter.
pub proof fn law_commit_keeps_the_active_provider(active: usize, len: int)
    requires
        len > 0,
    ensures
        clamped(active, len) <= active,
        clamped(active, len) < len,
        clamped(active, len) == active || clamped(active, len) == len - 1,
{
}

/// The upper arrow has the selected provider change places with the one above
/// it, the lower one with the one below it; every other provider and every
/// other setting stays. At the end of the list nothing moves.
pub proof fn law_arrows_move_one_row(m: DraftModel, idx: usize, i: int)
    requires
        0 <= i < m.draft.providers.len() <= usize::MAX,
    ensures
        ({
            let ps = m.draft.providers;
            let up = reordered(m, Some(idx), true);
            let down = reordered(m, Some(idx), false);
            &&& 0 < idx < ps.len() ==> {
                &&& up.draft.providers[idx - 1] == ps[idx as int]
                &&& up.draft.providers[idx as int] == ps[idx - 1]
                &&& i != idx && i != idx - 1 ==> up.draft.providers[i] == ps[i]
                &&& up.dirty
            }
            &&& idx == 0 || idx >= ps.len() ==> up == m
            &&& idx + 1 < ps.len() ==> {
                &&& down.draft.providers[idx + 1] == ps[idx as int]
                &&& down.draft.providers[idx as int] == ps[idx + 1]
                &&& i != idx && i != idx + 1 ==> down.draft.providers[i] == ps[i]
                &&& down.dirty
            }
            &&& idx + 1 >= ps.len() ==> down == m
            &&& up.draft.providers.len() == ps.len()
            &&& down.draft.providers.len() == ps.len()
            &&& up.draft.general == m.draft.general
            &&& down.draft.general == m.draft.general
            &&& up.draft.cache == m.draft.cache
            &&& down.draft.cache == m.draft.cache
            &&& forall|up: bool| #[trigger] reordered(m, None, up) == m
        }),
{
}

/// The row that an arrow moves the selected one to is the one above or the one
/// below, if there is one.
pub proof fn law_neighbours_are_adjacent(len: int, idx: usize)
    requires
        len >= 0,
    ensures
        0 < idx < len ==> neighbour(len, idx, true) == Some(idx - 1),
        idx + 1 < len ==> neighbour(len, idx, false) == Some(idx + 1),
        idx == 0 || idx >= len ==> neighbour(len, idx, true) is None,
        idx + 1 >= len ==> neighbour(len, idx, false) is None,
{
}

/// Another provider list changes nothing else of a draft, which counts as
/// touched from then on.
pub proof fn law_new_list_changes_nothing_else(
    m: DraftModel,
    ps: Seq<ProviderModel>,
    active: usize,
)
    ensures
        with_list(m, ps, active).draft.providers == ps,
        with_list(m, ps, active).draft.general == m.draft.general,
        with_list(m, ps, active).draft.cache == m.draft.cache,
        with_list(m, ps, active).draft_active_provider == active,
        with_list(m, ps, active).dirty,
{
}

/// The ranges of the spin buttons: sensitivities from one tenth to five in
/// steps of one tenth, up to a million megabytes, up to a hundred years of
/// 365 days, and zoom limits from 1 to 22.
pub proof fn law_ranges_of_the_spin_buttons()
    ensures
        general_kinds().len() == 4,
        general_kinds()[0] matches FieldKind::F64Spin { min, max, step, digits } && min.bits
            == 0x3fb9_9999_9999_999a && max.bits == 0x4014_0000_0000_0000 && step.bits
            == 0x3fb9_9999_9999_999a && digits == 2,
        general_kinds()[1] is OptionalText,
        general_kinds()[2] matches FieldKind::U64Spin { min, max, step } && min == 0 && max
            == 1_000_000 && step == 50,
        general_kinds()[3] matches FieldKind::U64Spin { min, max, step } && min == 0 && max == 100
            * 365 && step == 1,
        provider_kinds().len() == 4,
        provider_kinds()[0] is Text,
        provider_kinds()[1] is Text,
        provider_kinds()[2] is Bool,
        provider_kinds()[3] matches FieldKind::U64Spin { min, max, step } && min == 1 && max == 22
            && step == 1,
{
}

} // verus!
