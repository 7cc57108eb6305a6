//! A mutually-exclusive picker for a provider's API-key source: none, a
//! literal value, a file to read, or a command to run. Exactly the entry of
//! the chosen source can be edited.

use crate::config::{ApiKeySource, Provider};
#[allow(unused_imports)]
use crate::config::{KeySourceModel, ProviderModel};
use crate::text;
use vstd::prelude::*;

verus! {

/// The choices of the picker.
#[derive(Debug, Clone, Copy, PartialEq, Eq, Structural)]
pub enum KeyChoice {
    Nothing,
    Literal,
    File,
    Command,
}

/// What the picker shows: the choice and the text of each entry.
#[derive(Debug)]
pub struct ApiKeySourceField {
    pub choice: KeyChoice,
    pub literal: String,
    pub file: String,
    pub command: String,
}

/// The value of an [`ApiKeySourceField`].
pub struct PickerModel {
    pub choice: KeyChoice,
    pub literal: Seq<char>,
    pub file: Seq<char>,
    pub command: Seq<char>,
}

impl View for ApiKeySourceField {
    type V = PickerModel;

    open spec fn view(&self) -> PickerModel {
        PickerModel {
            choice: self.choice,
            literal: self.literal@,
            file: self.file@,
            command: self.command@,
        }
    }
}

/// A picker with nothing chosen.
pub open spec fn nothing_chosen() -> PickerModel {
    PickerModel {
        choice: KeyChoice::Nothing,
        literal: Seq::empty(),
        file: Seq::empty(),
        command: Seq::empty(),
    }
}

/// What the picker shows for a source: its text in its own entry, and the
/// other entries empty.
pub open spec fn picker_for(source: Option<KeySourceModel>) -> PickerModel {
    match source {
        None => nothing_chosen(),
        Some(KeySourceModel::Literal(s)) => PickerModel {
            choice: KeyChoice::Literal,
            literal: s,
            ..nothing_chosen()
        },
        Some(KeySourceModel::File(s)) => PickerModel {
            choice: KeyChoice::File,
            file: s,
            ..nothing_chosen()
        },
        Some(KeySourceModel::Command(s)) => PickerModel {
            choice: KeyChoice::Command,
            command: s,
            ..nothing_chosen()
        },
    }
}

/// The source that the picker stands for: the trimmed text of the chosen
/// entry, even if that is blank.
pub open spec fn picked(m: PickerModel) -> Option<KeySourceModel> {
    match m.choice {
        KeyChoice::Nothing => None,
        KeyChoice::Literal => Some(KeySourceModel::Literal(text::trim(m.literal))),
        KeyChoice::File => Some(KeySourceModel::File(text::trim(m.file))),
        KeyChoice::Command => Some(KeySourceModel::Command(text::trim(m.command))),
    }
}

impl ApiKeySourceField {
    /// A picker with nothing chosen.
    pub fn build() -> (r: Self)
        ensures
            r@ == nothing_chosen(),
    {
        ApiKeySourceField {
            choice: KeyChoice::Nothing,
            literal: String::new(),
            file: String::new(),
            command: String::new(),
        }
    }

    /// Repopulates the picker from `provider`.
    pub fn load(&mut self, provider: &Provider)
        ensures
            final(self)@ == picker_for(provider@.api_key_source),
    {
        *self = ApiKeySourceField::build();
        match &provider.api_key_source {
            None => {},
            Some(ApiKeySource::Literal(s)) => {
                self.literal = s.clone();
                self.choice = KeyChoice::Literal;
            },
            Some(ApiKeySource::File(s)) => {
                self.file = s.clone();
                self.choice = KeyChoice::File;
            },
            Some(ApiKeySource::Command(s)) => {
                self.command = s.clone();
                self.choice = KeyChoice::Command;
            },
        }
    }

    /// Writes the picker's selection back into `provider`.
    pub fn store(&self, provider: &mut Provider)
        ensures
            final(provider)@ == (ProviderModel {
                api_key_source: picked(self@),
                ..old(provider)@
            }),
    {
        provider.api_key_source = match self.choice {
            KeyChoice::Nothing => None,
            KeyChoice::Literal => Some(
                ApiKeySource::Literal(text::trimmed(self.literal.as_str())),
            ),
            KeyChoice::File => Some(ApiKeySource::File(text::trimmed(self.file.as_str()))),
            KeyChoice::Command => Some(
                ApiKeySource::Command(text::trimmed(self.command.as_str())),
            ),
        };
    }

    /// Whether the entry that belongs to a choice can be edited. The button
    /// next to the file entry goes with it.
    pub fn is_sensitive(&self, entry: KeyChoice) -> (r: bool)
        ensures
            r == (entry != KeyChoice::Nothing && entry == self.choice),
    {
        match (entry, self.choice) {
            (KeyChoice::Literal, KeyChoice::Literal) => true,
            (KeyChoice::File, KeyChoice::File) => true,
            (KeyChoice::Command, KeyChoice::Command) => true,
            _ => false,
        }
    }
}

/// A source whose text has no white space around it survives being shown and
/// read back.
pub proof fn law_picker_round_trip(source: Option<KeySourceModel>)
    requires
        match source {
            Some(KeySourceModel::Literal(s)) => text::is_trimmed(s),
            Some(KeySourceModel::File(s)) => text::is_trimmed(s),
            Some(KeySourceModel::Command(s)) => text::is_trimmed(s),
            None => true,
        },
    ensures
        picked(picker_for(source)) == source,
{
    match source {
        Some(KeySourceModel::Literal(s)) => text::lemma_trimmed_unchanged(s),
        Some(KeySourceModel::File(s)) => text::lemma_trimmed_unchanged(s),
        Some(KeySourceModel::Command(s)) => text::lemma_trimmed_unchanged(s),
        None => {},
    }
}

/// What stands in the entries that are not chosen makes no difference.
pub proof fn law_picker_is_exclusive(a: PickerModel, b: PickerModel)
    requires
        a.choice == b.choice,
        a.choice == KeyChoice::Literal ==> a.literal == b.literal,
        a.choice == KeyChoice::File ==> a.file == b.file,
        a.choice == KeyChoice::Command ==> a.command == b.command,
    ensures
        picked(a) == picked(b),
{
}

/// The source that is read from the picker is of the chosen kind. Its text is
/// all that stands in the entry of that kind but the white space around it.
pub proof fn law_picker_reads_the_chosen_entry(
    m: PickerModel,
    a: Seq<char>,
    k: Seq<char>,
    b: Seq<char>,
)
    requires
        text::all_white(a),
        text::all_white(b),
        text::is_core(k) || k.len() == 0,
    ensures
        m.choice == KeyChoice::Nothing ==> picked(m) is None,
        m.choice == KeyChoice::Literal && m.literal == a + k + b ==> picked(m) == Some(
            KeySourceModel::Literal(k),
        ),
        m.choice == KeyChoice::File && m.file == a + k + b ==> picked(m) == Some(
            KeySourceModel::File(k),
        ),
        m.choice == KeyChoice::Command && m.command == a + k + b ==> picked(m) == Some(
            KeySourceModel::Command(k),
        ),
{
    text::law_trim_removes_white_space_only(a, k, b);
    if k.len() == 0 {
        assert(a + k + b =~= a + b);
        assert(text::trim(a + k + b) =~= k);
    }
}

/// The picker shows the text of a source in the entry of its kind, as it is,
/// and nothing in the others.
pub proof fn law_picker_shows_the_source(s: Seq<char>)
    ensures
        ({
            let m = picker_for(Some(KeySourceModel::Literal(s)));
            m.choice == KeyChoice::Literal && m.literal == s && m.file.len() == 0 && m.command.len()
                == 0
        }),
        ({
            let m = picker_for(Some(KeySourceModel::File(s)));
            m.choice == KeyChoice::File && m.file == s && m.literal.len() == 0 && m.command.len()
                == 0
        }),
        ({
            let m = picker_for(Some(KeySourceModel::Command(s)));
            m.choice == KeyChoice::Command && m.command == s && m.literal.len() == 0 && m.file.len()
                == 0
        }),
        ({
            let m = picker_for(None);
            m.choice == KeyChoice::Nothing && m.literal.len() == 0 && m.file.len() == 0
                && m.command.len() == 0
        }),
{
}

} // verus!
