//! Edits of a provider list, shared by the dialogs that offer them.

use crate::config;
use crate::config::Provider;
#[allow(unused_imports)]
use crate::config::ProviderModel;
use vstd::prelude::*;

verus! {

/// Why an edit of a provider list is refused.
#[derive(Debug, Clone, Copy, PartialEq, Eq, Structural)]
pub enum Refusal {
    /// No provider is selected to be removed.
    NothingToRemove,
    /// The last provider cannot be removed.
    LastProvider,
    /// No provider is selected to be moved.
    NothingToMove,
    /// No provider is selected to be edited.
    NothingToEdit,
    /// The name or the template of the edited provider is blank.
    Incomplete,
    /// There is no provider, or one of them is incomplete.
    IncompleteList,
}

/// What the status line says of a refusal.
pub open spec fn refusal_text(refusal: Refusal) -> Seq<char> {
    match refusal {
        Refusal::NothingToRemove => "Select a provider to remove."@,
        Refusal::LastProvider => "At least one provider is required."@,
        Refusal::NothingToMove => "Select a provider to move."@,
        Refusal::NothingToEdit => "Select a provider to edit."@,
        Refusal::Incomplete => "Name and URL are required."@,
        Refusal::IncompleteList => "Every provider needs a non-empty name and URL."@,
    }
}

impl Refusal {
    /// What the status line says.
    pub fn message(&self) -> (r: &'static str)
        ensures
            r@ == refusal_text(*self),
    {
        match self {
            Refusal::NothingToRemove => "Select a provider to remove.",
            Refusal::LastProvider => "At least one provider is required.",
            Refusal::NothingToMove => "Select a provider to move.",
            Refusal::NothingToEdit => "Select a provider to edit.",
            Refusal::Incomplete => "Name and URL are required.",
            Refusal::IncompleteList => "Every provider needs a non-empty name and URL.",
        }
    }
}

/// What the status line says after the configuration was written, or after
/// that failed for the reason given.
pub fn save_message(failure: Option<String>) -> (r: String)
    ensures
        match failure {
            None => r@ == "Saved."@,
            Some(reason) => r@ == "Save failed: "@ + reason@,
        },
{
    match failure {
        None => "Saved.".to_owned(),
        Some(reason) => {
            let mut r = "Save failed: ".to_owned();
            r.append(reason.as_str());
            r
        },
    }
}

/// The provider that is added for the user to edit.
pub open spec fn added_provider() -> ProviderModel {
    config::plain_provider("New provider"@, "https://host/{z}/{x}/{y}.png"@, 19)
}

/// The provider that is added for the user to edit.
pub fn new_provider() -> (r: Provider)
    ensures
        r@ == added_provider(),
{
    let mut p = Provider::default();
    p.name = "New provider".to_owned();
    p.url = "https://host/{z}/{x}/{y}.png".to_owned();
    p.max_zoom = 19;
    p
}

/// Whether a provider has a name and a template.
pub open spec fn complete(p: ProviderModel) -> bool {
    p.name.len() > 0 && p.url.len() > 0
}

/// Whether a list has a provider, and each has a name and a template.
pub open spec fn all_complete(ps: Seq<ProviderModel>) -> bool {
    &&& ps.len() > 0
    &&& forall|i: int| 0 <= i < ps.len() ==> complete(#[trigger] ps[i])
}

/// Whether a provider has a name and a template.
pub fn is_complete(p: &Provider) -> (r: bool)
    ensures
        r == complete(p@),
{
    !p.name.as_str().is_empty() && !p.url.as_str().is_empty()
}

/// Whether a list has a provider, and each has a name and a template.
pub fn is_all_complete(ps: &Vec<Provider>) -> (r: bool)
    ensures
        r == all_complete(config::provider_views(ps@)),
{
    let mut i: usize = 0;
    while i < ps.len()
        invariant
            i <= ps@.len(),
            forall|k: int|
                0 <= k < i ==> complete(#[trigger] config::provider_views(ps@)[k]),
        decreases ps@.len() - i,
    {
        if !is_complete(&ps[i]) {
            proof {
                assert(!complete(config::provider_views(ps@)[i as int]));
            }
            return false;
        }
        i += 1;
    }
    ps.len() > 0
}

/// The list with a new provider at its end.
pub open spec fn list_with_added(ps: Seq<ProviderModel>) -> Seq<ProviderModel> {
    ps.push(added_provider())
}

/// Adds a new provider at the end and returns the row to select.
pub fn add(ps: &mut Vec<Provider>) -> (r: usize)
    ensures
        config::provider_views(final(ps)@) == list_with_added(config::provider_views(old(ps)@)),
        r == old(ps)@.len(),
{
    let row: usize = ps.len();
    ps.push(new_provider());
    proof {
        assert(config::provider_views(ps@) =~= list_with_added(
            config::provider_views(old(ps)@),
        ));
    }
    row
}

/// The row that is selected once row `i` is gone from a list of `len`: the
/// one that took its place, or the last one.
pub open spec fn row_after_removal(i: int, len: int) -> int {
    if i < len - 1 {
        i
    } else {
        len - 2
    }
}

/// What removing the selected provider comes to.
pub open spec fn removal(
    ps: Seq<ProviderModel>,
    selected: Option<usize>,
) -> Result<Seq<ProviderModel>, Refusal> {
    match selected {
        None => Err(Refusal::NothingToRemove),
        Some(i) => if ps.len() <= 1 {
            Err(Refusal::LastProvider)
        } else {
            Ok(ps.remove(i as int))
        },
    }
}

/// Removes the selected provider, unless it is the last one, and returns the
/// row to select.
pub fn remove(ps: &mut Vec<Provider>, selected: Option<usize>) -> (r: Result<usize, Refusal>)
    requires
        selected is Some && old(ps)@.len() > 1 ==> selected->0 < old(ps)@.len(),
    ensures
        match removal(config::provider_views(old(ps)@), selected) {
            Ok(rest) => {
                &&& r is Ok
                &&& r->Ok_0 == row_after_removal(selected->0 as int, old(ps)@.len() as int)
                &&& config::provider_views(final(ps)@) == rest
            },
            Err(refusal) => r == Err::<usize, Refusal>(refusal) && *final(ps) == *old(ps),
        },
{
    let idx: usize = match selected {
        Some(i) => i,
        None => {
            return Err(Refusal::NothingToRemove);
        },
    };
    if ps.len() <= 1 {
        return Err(Refusal::LastProvider);
    }
    ps.remove(idx);
    proof {
        assert(config::provider_views(ps@) =~= config::provider_views(old(ps)@).remove(
            idx as int,
        ));
    }
    let last: usize = ps.len() - 1;
    Ok(if idx <= last {
        idx
    } else {
        last
    })
}

/// A list with a provider never loses its last one, and the row selected
/// after a removal is there.
pub proof fn law_a_provider_remains(ps: Seq<ProviderModel>, selected: Option<usize>)
    requires
        selected is Some && ps.len() > 1 ==> selected->0 < ps.len(),
    ensures
        removal(ps, selected) matches Ok(rest) ==> {
            &&& rest.len() == ps.len() - 1
            &&& rest.len() >= 1
            &&& 0 <= row_after_removal(selected->0 as int, ps.len() as int) < rest.len()
        },
{
}

/// Removing the provider that was just added restores the list.
pub proof fn law_remove_undoes_add(ps: Seq<ProviderModel>, row: usize)
    requires
        row == ps.len(),
        ps.len() > 0,
    ensures
        removal(list_with_added(ps), Some(row)) == Ok::<Seq<ProviderModel>, Refusal>(ps),
{
    assert(list_with_added(ps).remove(row as int) =~= ps);
}

/// What is added is complete from the start.
pub proof fn law_added_provider_is_complete()
    ensures
        complete(added_provider()),
{
    reveal_strlit("New provider");
    reveal_strlit("https://host/{z}/{x}/{y}.png");
}

/// A provider is complete unless its name or its template is empty, whatever
/// else it has. A list is complete unless it is empty or one of its providers
/// is not.
pub proof fn law_complete_providers(p: ProviderModel, ps: Seq<ProviderModel>, i: int)
    ensures
        complete(p) <==> p.name != Seq::<char>::empty() && p.url != Seq::<char>::empty(),
        all_complete(ps) && 0 <= i < ps.len() ==> ps[i].name.len() > 0 && ps[i].url.len() > 0,
        all_complete(ps) ==> ps.len() > 0,
        !all_complete(ps) ==> ps.len() == 0 || exists|k: int|
            0 <= k < ps.len() && ((#[trigger] ps[k]).name.len() == 0 || ps[k].url.len() == 0),
{
    assert(p.name.len() == 0 ==> p.name =~= Seq::<char>::empty());
    assert(p.url.len() == 0 ==> p.url =~= Seq::<char>::empty());
    if !all_complete(ps) && ps.len() > 0 {
        let k = choose|k: int| 0 <= k < ps.len() && !complete(#[trigger] ps[k]);
        assert(ps[k].name.len() == 0 || ps[k].url.len() == 0);
    }
}

/// A removal takes the selected provider out and has those behind it move up.
/// Nothing is removed without a selection, nor from a list of one.
pub proof fn law_removal_takes_one_out(ps: Seq<ProviderModel>, idx: usize, i: int)
    requires
        ps.len() > 1 ==> idx < ps.len(),
    ensures
        ps.len() > 1 ==> {
            &&& removal(ps, Some(idx)) is Ok
            &&& removal(ps, Some(idx))->Ok_0.len() == ps.len() - 1
            &&& 0 <= i < idx ==> removal(ps, Some(idx))->Ok_0[i] == ps[i]
            &&& idx <= i < ps.len() - 1 ==> removal(ps, Some(idx))->Ok_0[i] == ps[i + 1]
        },
        ps.len() <= 1 ==> removal(ps, Some(idx)) == Err::<Seq<ProviderModel>, Refusal>(
            Refusal::LastProvider,
        ),
        removal(ps, None) == Err::<Seq<ProviderModel>, Refusal>(Refusal::NothingToRemove),
{
}

/// The row that is selected after a removal is the one that was, or the last
/// one if that is gone.
pub proof fn law_row_after_a_removal(i: int, len: int)
    requires
        0 <= i < len,
        len > 1,
    ensures
        i + 1 < len ==> row_after_removal(i, len) == i,
        i + 1 == len ==> row_after_removal(i, len) == i - 1,
{
}

/// A provider that is added stands at the end, behind those that were there.
/// It numbers its rows from the north, asks for no key and sends no headers.
pub proof fn law_added_provider_stands_at_the_end(ps: Seq<ProviderModel>, i: int)
    ensures
        list_with_added(ps).len() == ps.len() + 1,
        0 <= i < ps.len() ==> list_with_added(ps)[i] == ps[i],
        ({
            let p = list_with_added(ps)[ps.len() as int];
            &&& p.name == "New provider"@
            &&& p.url == "https://host/{z}/{x}/{y}.png"@
            &&& !p.tms
            &&& p.max_zoom == 19
            &&& p.api_key_source is None
            &&& p.headers.len() == 0
        }),
{
}

} // verus!
