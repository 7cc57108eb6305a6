//! Declarative scalar-field descriptors for simple forms.
//!
//! A [`Field`] pairs a label with the kind of widget that edits it. A form
//! hands a row of values to such widgets and reads them back. What a widget
//! makes of what it is handed is the toolkit's: a spin button brings a number
//! into its range.

use crate::config::Real;
use crate::text;
use vstd::prelude::*;

verus! {

/// The kinds of widgets.
#[allow(inconsistent_fields)]
#[derive(Debug, Clone, Copy, PartialEq, Eq, Structural)]
pub enum FieldKind {
    /// A text entry.
    Text,
    /// A text entry that may be left blank.
    OptionalText,
    /// A switch.
    Bool,
    /// A spin button for a number with `digits` decimals.
    F64Spin { min: Real, max: Real, step: Real, digits: u32 },
    /// A spin button for a whole number.
    U64Spin { min: u64, max: u64, step: u64 },
    /// A text entry for a directory, with a chooser next to it. It may be
    /// left blank.
    Path,
}

/// One row of a form.
#[derive(Debug, Clone, Copy)]
pub struct Field {
    pub label: &'static str,
    pub kind: FieldKind,
}

impl Field {
    pub fn text(label: &'static str) -> (r: Self)
        ensures
            r.label@ == label@,
            r.kind == FieldKind::Text,
    {
        Field { label, kind: FieldKind::Text }
    }

    pub fn optional_text(label: &'static str) -> (r: Self)
        ensures
            r.label@ == label@,
            r.kind == FieldKind::OptionalText,
    {
        Field { label, kind: FieldKind::OptionalText }
    }

    pub fn bool_switch(label: &'static str) -> (r: Self)
        ensures
            r.label@ == label@,
            r.kind == FieldKind::Bool,
    {
        Field { label, kind: FieldKind::Bool }
    }

    pub fn f64_spin(label: &'static str, min: Real, max: Real, step: Real, digits: u32) -> (r: Self)
        ensures
            r.label@ == label@,
            r.kind == (FieldKind::F64Spin { min, max, step, digits }),
    {
        Field { label, kind: FieldKind::F64Spin { min, max, step, digits } }
    }

    pub fn u64_spin(label: &'static str, min: u64, max: u64, step: u64) -> (r: Self)
        ensures
            r.label@ == label@,
            r.kind == (FieldKind::U64Spin { min, max, step }),
    {
        Field { label, kind: FieldKind::U64Spin { min, max, step } }
    }

    pub fn path(label: &'static str) -> (r: Self)
        ensures
            r.label@ == label@,
            r.kind == FieldKind::Path,
    {
        Field { label, kind: FieldKind::Path }
    }
}

/// What a widget is handed to show, or is read to show.
#[derive(Debug)]
pub enum Content {
    Text(String),
    Switch(bool),
    Number(Real),
    Count(u64),
}

/// The value of a [`Content`].
pub enum ContentModel {
    Text(Seq<char>),
    Switch(bool),
    Number(Real),
    Count(u64),
}

impl View for Content {
    type V = ContentModel;

    open spec fn view(&self) -> ContentModel {
        match self {
            Content::Text(s) => ContentModel::Text(s@),
            Content::Switch(b) => ContentModel::Switch(*b),
            Content::Number(x) => ContentModel::Number(*x),
            Content::Count(n) => ContentModel::Count(*n),
        }
    }
}

/// What a field stands for.
#[derive(Debug)]
pub enum FieldValue {
    Text(String),
    OptionalText(Option<String>),
    Bool(bool),
    F64(Real),
    U64(u64),
    Path(Option<String>),
}

/// The value of a [`FieldValue`].
pub enum ValueModel {
    Text(Seq<char>),
    OptionalText(Option<Seq<char>>),
    Bool(bool),
    F64(Real),
    U64(u64),
    Path(Option<Seq<char>>),
}

impl View for FieldValue {
    type V = ValueModel;

    open spec fn view(&self) -> ValueModel {
        match self {
            FieldValue::Text(s) => ValueModel::Text(s@),
            FieldValue::OptionalText(s) => ValueModel::OptionalText(
                crate::config::text_view(*s),
            ),
            FieldValue::Bool(b) => ValueModel::Bool(*b),
            FieldValue::F64(x) => ValueModel::F64(*x),
            FieldValue::U64(n) => ValueModel::U64(*n),
            FieldValue::Path(s) => ValueModel::Path(crate::config::text_view(*s)),
        }
    }
}

/// The values of a row of fields.
pub open spec fn value_views(s: Seq<FieldValue>) -> Seq<ValueModel> {
    s.map_values(|v: FieldValue| v@)
}

/// Whether a widget of this kind can show this content.
pub open spec fn fits(kind: FieldKind, content: ContentModel) -> bool {
    match kind {
        FieldKind::Text | FieldKind::OptionalText | FieldKind::Path => content is Text,
        FieldKind::Bool => content is Switch,
        FieldKind::F64Spin { .. } => content is Number,
        FieldKind::U64Spin { .. } => content is Count,
    }
}

/// Whether a field of this kind stands for this value.
pub open spec fn belongs(kind: FieldKind, value: ValueModel) -> bool {
    match kind {
        FieldKind::Text => value is Text,
        FieldKind::OptionalText => value is OptionalText,
        FieldKind::Bool => value is Bool,
        FieldKind::F64Spin { .. } => value is F64,
        FieldKind::U64Spin { .. } => value is U64,
        FieldKind::Path => value is Path,
    }
}

/// The text of an entry, if it is not blank.
pub open spec fn unless_blank(s: Seq<char>) -> Option<Seq<char>> {
    if text::trim(s).len() == 0 {
        None
    } else {
        Some(text::trim(s))
    }
}

/// What a widget with this content stands for.
pub open spec fn read_value(kind: FieldKind, content: ContentModel) -> ValueModel {
    match kind {
        FieldKind::Text => ValueModel::Text(text::trim(content->Text_0)),
        FieldKind::OptionalText => ValueModel::OptionalText(unless_blank(content->Text_0)),
        FieldKind::Bool => ValueModel::Bool(content->Switch_0),
        FieldKind::F64Spin { .. } => ValueModel::F64(content->Number_0),
        FieldKind::U64Spin { .. } => ValueModel::U64(content->Count_0),
        FieldKind::Path => ValueModel::Path(unless_blank(content->Text_0)),
    }
}

/// The text handed over for an optional one.
pub open spec fn or_empty(s: Option<Seq<char>>) -> Seq<char> {
    match s {
        Some(text) => text,
        None => Seq::empty(),
    }
}

/// What a widget is handed for a value.
pub open spec fn shown_value(value: ValueModel) -> ContentModel {
    match value {
        ValueModel::Text(s) => ContentModel::Text(s),
        ValueModel::OptionalText(s) => ContentModel::Text(or_empty(s)),
        ValueModel::Bool(b) => ContentModel::Switch(b),
        ValueModel::F64(x) => ContentModel::Number(x),
        ValueModel::U64(n) => ContentModel::Count(n),
        ValueModel::Path(s) => ContentModel::Text(or_empty(s)),
    }
}

/// The trimmed text of an entry, or `None` if it is blank.
pub fn optional_entry(entry: &str) -> (r: Option<String>)
    ensures
        crate::config::text_view(r) == unless_blank(entry@),
{
    let s = text::trimmed(entry);
    if s.as_str().is_empty() {
        None
    } else {
        Some(s)
    }
}

/// The text shown for an optional one.
fn text_or_empty(s: &Option<String>) -> (r: String)
    ensures
        r@ == or_empty(crate::config::text_view(*s)),
{
    match s {
        Some(t) => t.clone(),
        None => String::new(),
    }
}

/// A whole number as an unsigned one, in two's complement.
pub open spec fn counted(value: i32) -> u64 {
    if value >= 0 {
        value as u64
    } else {
        (u64::MAX + 1 + value) as u64
    }
}

/// The whole number in a spin button, as an unsigned one.
pub fn spin_count(value: i32) -> (r: u64)
    ensures
        r == counted(value),
{
    if value >= 0 {
        value as u64
    } else {
        u64::MAX - (-(value as i64) - 1) as u64
    }
}

/// The values of what a row of widgets shows.
pub open spec fn content_views(s: Seq<Content>) -> Seq<ContentModel> {
    s.map_values(|c: Content| c@)
}

/// Whether each widget of a row can show its content.
pub open spec fn all_fit(fields: Seq<Field>, contents: Seq<ContentModel>) -> bool {
    &&& contents.len() == fields.len()
    &&& forall|i: int| 0 <= i < fields.len() ==> fits(fields[i].kind, #[trigger] contents[i])
}

/// Whether each field of a row stands for its value.
pub open spec fn all_belong(fields: Seq<Field>, values: Seq<ValueModel>) -> bool {
    &&& values.len() == fields.len()
    &&& forall|i: int| 0 <= i < fields.len() ==> belongs(fields[i].kind, #[trigger] values[i])
}

/// What a row of widgets stands for.
pub open spec fn read_all(fields: Seq<Field>, contents: Seq<ContentModel>) -> Seq<ValueModel> {
    Seq::new(fields.len(), |i: int| read_value(fields[i].kind, contents[i]))
}

/// What a row of widgets is handed for its values.
pub open spec fn shown_all(values: Seq<ValueModel>) -> Seq<ContentModel> {
    values.map_values(|v: ValueModel| shown_value(v))
}

/// What a widget is handed for a value.
fn show(value: &FieldValue) -> (r: Content)
    ensures
        r@ == shown_value(value@),
{
    match value {
        FieldValue::Text(s) => Content::Text(s.clone()),
        FieldValue::OptionalText(s) => Content::Text(text_or_empty(s)),
        FieldValue::Bool(b) => Content::Switch(*b),
        FieldValue::F64(x) => Content::Number(*x),
        FieldValue::U64(n) => Content::Count(*n),
        FieldValue::Path(s) => Content::Text(text_or_empty(s)),
    }
}

/// What a widget with this content stands for.
fn read(kind: FieldKind, content: &Content) -> (r: FieldValue)
    requires
        fits(kind, content@),
    ensures
        r@ == read_value(kind, content@),
{
    match content {
        Content::Text(s) => match kind {
            FieldKind::OptionalText => FieldValue::OptionalText(optional_entry(s.as_str())),
            FieldKind::Path => FieldValue::Path(optional_entry(s.as_str())),
            _ => FieldValue::Text(text::trimmed(s.as_str())),
        },
        Content::Switch(b) => FieldValue::Bool(*b),
        Content::Number(x) => FieldValue::F64(*x),
        Content::Count(n) => FieldValue::U64(*n),
    }
}

/// What a row of widgets is handed for its values.
fn show_all(values: &Vec<FieldValue>) -> (r: Vec<Content>)
    ensures
        content_views(r@) == shown_all(value_views(values@)),
{
    let mut r: Vec<Content> = Vec::new();
    let mut i: usize = 0;
    while i < values.len()
        invariant
            i <= values@.len(),
            r@.len() == i,
            forall|k: int| 0 <= k < i ==> (#[trigger] r@[k])@ == shown_value(values@[k]@),
        decreases values@.len() - i,
    {
        r.push(show(&values[i]));
        i += 1;
    }
    proof {
        assert(content_views(r@) =~= shown_all(value_views(values@)));
    }
    r
}

/// A form: a row of fields, and what their widgets are handed or were read to
/// show.
#[derive(Debug)]
pub struct FieldForm {
    pub fields: Vec<Field>,
    pub contents: Vec<Content>,
}

impl FieldForm {
    /// Whether each widget can show its content.
    pub open spec fn wf(&self) -> bool {
        all_fit(self.fields@, content_views(self.contents@))
    }

    /// A form whose widgets are handed `initial`, every number as it is.
    pub fn build(fields: Vec<Field>, initial: &Vec<FieldValue>) -> (r: FieldForm)
        requires
            all_belong(fields@, value_views(initial@)),
        ensures
            r.wf(),
            r.fields == fields,
            content_views(r.contents@) == shown_all(value_views(initial@)),
    {
        let contents = show_all(initial);
        proof {
            lemma_shown_fits(fields@, value_views(initial@));
        }
        FieldForm { fields, contents }
    }

    /// Hands the widgets other values, every number as it is.
    pub fn load(&mut self, values: &Vec<FieldValue>)
        requires
            all_belong(old(self).fields@, value_views(values@)),
        ensures
            final(self).wf(),
            final(self).fields == old(self).fields,
            content_views(final(self).contents@) == shown_all(value_views(values@)),
    {
        self.contents = show_all(values);
        proof {
            lemma_shown_fits(self.fields@, value_views(values@));
        }
    }

    /// Reads the widgets: texts without the white space around them, and
    /// blank optional texts as none at all.
    pub fn store(&self) -> (r: Vec<FieldValue>)
        requires
            self.wf(),
        ensures
            value_views(r@) == read_all(self.fields@, content_views(self.contents@)),
            all_belong(self.fields@, value_views(r@)),
    {
        let mut r: Vec<FieldValue> = Vec::new();
        let mut i: usize = 0;
        while i < self.fields.len()
            invariant
                self.wf(),
                i <= self.fields@.len(),
                r@.len() == i,
                forall|k: int|
                    0 <= k < i ==> (#[trigger] r@[k])@ == read_value(
                        self.fields@[k].kind,
                        self.contents@[k]@,
                    ),
            decreases self.fields@.len() - i,
        {
            proof {
                assert(content_views(self.contents@)[i as int] == self.contents@[i as int]@);
            }
            r.push(read(self.fields[i].kind, &self.contents[i]));
            i += 1;
        }
        proof {
            let values = read_all(self.fields@, content_views(self.contents@));
            assert(value_views(r@) =~= values);
            assert forall|k: int| 0 <= k < self.fields@.len() implies belongs(
                self.fields@[k].kind,
                #[trigger] values[k],
            ) by {
                assert(fits(self.fields@[k].kind, content_views(self.contents@)[k]));
            }
        }
        r
    }
}

/// A row of widgets can show the values of its fields.
proof fn lemma_shown_fits(fields: Seq<Field>, values: Seq<ValueModel>)
    requires
        all_belong(fields, values),
    ensures
        all_fit(fields, shown_all(values)),
{
    assert forall|i: int| 0 <= i < fields.len() implies fits(
        fields[i].kind,
        #[trigger] shown_all(values)[i],
    ) by {
        assert(belongs(fields[i].kind, values[i]));
    }
}

/// Tells programmatic updates of widgets apart from edits by the user.
#[derive(Debug, Clone, Copy, PartialEq, Eq, Structural)]
pub struct ChangeGuard {
    pub suppress_changed: bool,
}

impl ChangeGuard {
    /// A guard for widgets that nobody is updating.
    pub fn new() -> (r: Self)
        ensures
            !r.suppress_changed,
    {
        ChangeGuard { suppress_changed: false }
    }

    /// Begins a programmatic update.
    pub fn begin(&mut self)
        ensures
            final(self).suppress_changed,
    {
        self.suppress_changed = true;
    }

    /// Ends a programmatic update.
    pub fn end(&mut self)
        ensures
            !final(self).suppress_changed,
    {
        self.suppress_changed = false;
    }

    /// Whether a change that a widget reports is an edit by the user.
    pub fn fires(&self) -> (r: bool)
        ensures
            r == !self.suppress_changed,
    {
        !self.suppress_changed
    }
}

/// Where a double stands among all doubles but the NaNs: the bit pattern of
/// one that is not negative grows with it, that of a negative one with its
/// distance from zero.
pub open spec fn rank(x: Real) -> int {
    if x.bits < 0x8000_0000_0000_0000 {
        x.bits as int
    } else {
        0x8000_0000_0000_0000 - x.bits
    }
}

/// Whether a double is a number. The bit patterns beyond those of the two
/// infinities are NaNs.
pub open spec fn is_number(x: Real) -> bool {
    -0x7ff0_0000_0000_0000 <= rank(x) <= 0x7ff0_0000_0000_0000
}

/// Whether a widget of this kind shows what it is handed: a spin button does
/// if the number is in its range.
pub open spec fn in_range(kind: FieldKind, content: ContentModel) -> bool {
    match kind {
        FieldKind::F64Spin { min, max, .. } => is_number(content->Number_0) && rank(min) <= rank(
            content->Number_0,
        ) <= rank(max),
        FieldKind::U64Spin { min, max, .. } => min <= content->Count_0 <= max,
        _ => true,
    }
}

/// Whether a value survives a form: its text has no white space around it, an
/// optional one is not an empty text, and a number is in the range of its spin
/// button.
pub open spec fn survives(kind: FieldKind, value: ValueModel) -> bool {
    &&& in_range(kind, shown_value(value))
    &&& match value {
        ValueModel::Text(s) => text::is_trimmed(s),
        ValueModel::OptionalText(Some(s)) => s.len() > 0 && text::is_trimmed(s),
        ValueModel::Path(Some(s)) => s.len() > 0 && text::is_trimmed(s),
        _ => true,
    }
}

/// A value that survives is read back from the widget that shows it.
proof fn lemma_shown_is_read_back(kind: FieldKind, value: ValueModel)
    requires
        belongs(kind, value),
        survives(kind, value),
    ensures
        in_range(kind, shown_value(value)),
        read_value(kind, shown_value(value)) == value,
{
    match value {
        ValueModel::Text(s) => text::lemma_trimmed_unchanged(s),
        ValueModel::OptionalText(Some(s)) => text::lemma_trimmed_unchanged(s),
        ValueModel::Path(Some(s)) => text::lemma_trimmed_unchanged(s),
        _ => {
            assert(text::trim(Seq::empty()).len() == 0);
        },
    }
}

/// Values that survive are shown as they are handed over, and read back
/// unchanged if nobody edits them.
pub proof fn law_form_round_trip(fields: Seq<Field>, values: Seq<ValueModel>)
    requires
        all_belong(fields, values),
        forall|i: int|
            0 <= i < values.len() ==> survives(fields[i].kind, #[trigger] values[i]),
    ensures
        all_fit(fields, shown_all(values)),
        forall|i: int|
            0 <= i < fields.len() ==> in_range(fields[i].kind, #[trigger] shown_all(values)[i]),
        read_all(fields, shown_all(values)) == values,
{
    lemma_shown_fits(fields, values);
    assert forall|i: int| 0 <= i < fields.len() implies in_range(
        fields[i].kind,
        #[trigger] shown_all(values)[i],
    ) && read_all(fields, shown_all(values))[i] == values[i] by {
        assert(belongs(fields[i].kind, values[i]));
        assert(survives(fields[i].kind, values[i]));
        lemma_shown_is_read_back(fields[i].kind, values[i]);
    }
    assert(read_all(fields, shown_all(values)) =~= values);
}

/// Whatever is read from a widget, whose number is in its range, survives the
/// form.
pub proof fn law_read_values_survive(kind: FieldKind, content: ContentModel)
    requires
        fits(kind, content),
        in_range(kind, content),
    ensures
        survives(kind, read_value(kind, content)),
{
    if content is Text {
        text::law_trim_is_idempotent(content->Text_0);
    }
}

/// What is read from an entry is all that was typed but the white space
/// around it. Where nothing else was typed, a text is empty, and an optional
/// text and a directory are none at all.
pub proof fn law_entries_lose_the_white_space_around_them(
    a: Seq<char>,
    k: Seq<char>,
    b: Seq<char>,
)
    requires
        text::all_white(a),
        text::all_white(b),
        text::is_core(k) || k.len() == 0,
    ensures
        read_value(FieldKind::Text, ContentModel::Text(a + k + b)) == ValueModel::Text(k),
        k.len() > 0 ==> {
            &&& read_value(FieldKind::OptionalText, ContentModel::Text(a + k + b))
                == ValueModel::OptionalText(Some(k))
            &&& read_value(FieldKind::Path, ContentModel::Text(a + k + b)) == ValueModel::Path(
                Some(k),
            )
            &&& unless_blank(a + k + b) == Some(k)
        },
        k.len() == 0 ==> {
            &&& read_value(FieldKind::OptionalText, ContentModel::Text(a + k + b))
                == ValueModel::OptionalText(None)
            &&& read_value(FieldKind::Path, ContentModel::Text(a + k + b)) == ValueModel::Path(
                None,
            )
            &&& unless_blank(a + k + b) is None
        },
{
    text::law_trim_removes_white_space_only(a, k, b);
    if k.len() == 0 {
        assert(a + k + b =~= a + b);
        assert(text::trim(a + k + b) =~= k);
    }
}

/// What a switch or a spin button shows is what is read from it.
pub proof fn law_switches_and_numbers_are_read_as_they_are(
    on: bool,
    x: Real,
    n: u64,
    min: Real,
    max: Real,
    step: Real,
    digits: u32,
    least: u64,
    most: u64,
    by: u64,
)
    ensures
        read_value(FieldKind::Bool, ContentModel::Switch(on)) == ValueModel::Bool(on),
        read_value(FieldKind::F64Spin { min, max, step, digits }, ContentModel::Number(x))
            == ValueModel::F64(x),
        read_value(FieldKind::U64Spin { min: least, max: most, step: by }, ContentModel::Count(n))
            == ValueModel::U64(n),
{
}

/// A widget is handed a value as it is; an entry for a text that is not there
/// is handed the empty text.
pub proof fn law_widgets_are_handed_the_values(s: Seq<char>, on: bool, x: Real, n: u64)
    ensures
        shown_value(ValueModel::Text(s)) == ContentModel::Text(s),
        shown_value(ValueModel::OptionalText(Some(s))) == ContentModel::Text(s),
        shown_value(ValueModel::Path(Some(s))) == ContentModel::Text(s),
        shown_value(ValueModel::OptionalText(None)) == ContentModel::Text(Seq::empty()),
        shown_value(ValueModel::Path(None)) == ContentModel::Text(Seq::empty()),
        shown_value(ValueModel::Bool(on)) == ContentModel::Switch(on),
        shown_value(ValueModel::F64(x)) == ContentModel::Number(x),
        shown_value(ValueModel::U64(n)) == ContentModel::Count(n),
{
}

/// Each widget of a row shows, and is read for, its own value: the row keeps
/// its length and its order.
pub proof fn law_rows_keep_their_order(
    fields: Seq<Field>,
    values: Seq<ValueModel>,
    contents: Seq<ContentModel>,
    i: int,
)
    ensures
        shown_all(values).len() == values.len(),
        0 <= i < values.len() ==> shown_all(values)[i] == shown_value(values[i]),
        read_all(fields, contents).len() == fields.len(),
        0 <= i < fields.len() ==> read_all(fields, contents)[i] == read_value(
            fields[i].kind,
            contents[i],
        ),
{
}

/// A count that is not negative is itself; a negative one is taken from two to
/// the power of sixty-four.
pub proof fn law_counts_wrap_around(value: i32)
    ensures
        value >= 0 ==> counted(value) == value,
        value < 0 ==> counted(value) - value == 0x1_0000_0000_0000_0000,
{
}

/// An entry shows text, a switch is on or off, and a spin button shows a
/// number of its kind. A row of widgets fits a row of contents if it is as
/// long and each widget shows its own.
pub proof fn law_what_widgets_show(
    kind: FieldKind,
    content: ContentModel,
    fields: Seq<Field>,
    contents: Seq<ContentModel>,
)
    ensures
        fits(kind, content) <==> match content {
            ContentModel::Text(_) => kind is Text || kind is OptionalText || kind is Path,
            ContentModel::Switch(_) => kind is Bool,
            ContentModel::Number(_) => kind is F64Spin,
            ContentModel::Count(_) => kind is U64Spin,
        },
        all_fit(fields, contents) <==> fields.len() == contents.len() && forall|i: int|
            0 <= i < contents.len() ==> fits((#[trigger] fields[i]).kind, contents[i]),
{
}

/// A value belongs to a field of its own kind. A row of values belongs to a
/// row of fields if it is as long and each value belongs to its own.
pub proof fn law_what_fields_stand_for(
    kind: FieldKind,
    value: ValueModel,
    fields: Seq<Field>,
    values: Seq<ValueModel>,
)
    ensures
        belongs(kind, value) <==> match value {
            ValueModel::Text(_) => kind is Text,
            ValueModel::OptionalText(_) => kind is OptionalText,
            ValueModel::Bool(_) => kind is Bool,
            ValueModel::F64(_) => kind is F64Spin,
            ValueModel::U64(_) => kind is U64Spin,
            ValueModel::Path(_) => kind is Path,
        },
        all_belong(fields, values) <==> fields.len() == values.len() && forall|i: int|
            0 <= i < values.len() ==> belongs((#[trigger] fields[i]).kind, values[i]),
{
    if fields.len() == values.len() && forall|i: int|
        0 <= i < values.len() ==> belongs((#[trigger] fields[i]).kind, values[i]) {
        assert forall|i: int| 0 <= i < fields.len() implies belongs(
            fields[i].kind,
            #[trigger] values[i],
        ) by {}
    }
}

} // verus!
