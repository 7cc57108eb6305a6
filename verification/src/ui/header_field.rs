//! A list of custom HTTP header rows for a provider, to which rows can be
//! added and from which they can be removed.

use crate::config;
use crate::config::{Header, Provider};
#[allow(unused_imports)]
use crate::config::{HeaderModel, ProviderModel};
use crate::text;
use vstd::prelude::*;

verus! {

/// The rows of the list, as they are shown.
#[derive(Debug)]
pub struct HeaderListField {
    pub rows: Vec<Header>,
}

impl View for HeaderListField {
    type V = Seq<HeaderModel>;

    open spec fn view(&self) -> Seq<HeaderModel> {
        config::header_views(self.rows@)
    }
}

/// The headers that a list of rows stands for: names and values without
/// white space around them, and no rows with a blank name.
pub open spec fn entered(rows: Seq<HeaderModel>) -> Seq<HeaderModel>
    decreases rows.len(),
{
    if rows.len() == 0 {
        Seq::empty()
    } else {
        let row = rows.last();
        let rest = entered(rows.drop_last());
        if text::trim(row.name).len() == 0 {
            rest
        } else {
            rest.push(HeaderModel { name: text::trim(row.name), value: text::trim(row.value) })
        }
    }
}

impl HeaderListField {
    /// A list without rows.
    pub fn build() -> (r: HeaderListField)
        ensures
            r@ == Seq::<HeaderModel>::empty(),
    {
        let r = HeaderListField { rows: Vec::new() };
        proof {
            assert(r@ =~= Seq::<HeaderModel>::empty());
        }
        r
    }

    /// Rebuilds the rows from the provider's headers.
    pub fn load(&mut self, provider: &Provider)
        ensures
            final(self)@ == provider@.headers,
    {
        let mut rows: Vec<Header> = Vec::new();
        let mut i: usize = 0;
        while i < provider.headers.len()
            invariant
                i <= provider.headers@.len(),
                rows@.len() == i,
                forall|k: int| 0 <= k < i ==> (#[trigger] rows@[k])@ == provider.headers@[k]@,
            decreases provider.headers@.len() - i,
        {
            rows.push(provider.headers[i].clone());
            i += 1;
        }
        self.rows = rows;
        proof {
            assert(self@ =~= provider@.headers);
        }
    }

    /// Adds a row at the end.
    pub fn add_row(&mut self, name: &str, value: &str)
        ensures
            final(self)@ == old(self)@.push(HeaderModel { name: name@, value: value@ }),
    {
        self.rows.push(Header { name: name.to_owned(), value: value.to_owned() });
        proof {
            assert(self@ =~= old(self)@.push(HeaderModel { name: name@, value: value@ }));
        }
    }

    /// Removes row `i`.
    pub fn remove_row(&mut self, i: usize)
        requires
            i < old(self)@.len(),
        ensures
            final(self)@ == old(self)@.remove(i as int),
    {
        self.rows.remove(i);
        proof {
            assert(self@ =~= old(self)@.remove(i as int));
        }
    }

    /// Collects the rows with a name into the provider's headers, dropping
    /// those with a blank one, such as a row just added.
    pub fn store(&self, provider: &mut Provider)
        ensures
            final(provider)@ == (ProviderModel { headers: entered(self@), ..old(provider)@ }),
    {
        let mut headers: Vec<Header> = Vec::new();
        let mut i: usize = 0;
        proof {
            assert(self@.take(0) =~= Seq::empty());
            assert(config::header_views(headers@) =~= Seq::empty());
        }
        while i < self.rows.len()
            invariant
                i <= self.rows@.len(),
                config::header_views(headers@) == entered(self@.take(i as int)),
            decreases self.rows@.len() - i,
        {
            let ghost before = headers@;
            proof {
                assert(self@.take(i + 1).drop_last() =~= self@.take(i as int));
                assert(self@.take(i + 1).last() == self.rows@[i as int]@);
            }
            let name = text::trimmed(self.rows[i].name.as_str());
            if !name.as_str().is_empty() {
                let value = text::trimmed(self.rows[i].value.as_str());
                headers.push(Header { name, value });
                proof {
                    assert(config::header_views(headers@) =~= config::header_views(before).push(
                        headers@.last()@,
                    ));
                }
            }
            i += 1;
        }
        proof {
            assert(self@.take(i as int) =~= self@);
        }
        provider.headers = headers;
    }
}

/// Whether a header survives being shown and read back.
pub open spec fn tidy(h: HeaderModel) -> bool {
    &&& h.name.len() > 0
    &&& text::is_trimmed(h.name)
    &&& text::is_trimmed(h.value)
}

/// Headers with a name and without white space around their parts survive
/// being shown and read back.
pub proof fn law_headers_round_trip(headers: Seq<HeaderModel>)
    requires
        forall|i: int| 0 <= i < headers.len() ==> tidy(#[trigger] headers[i]),
    ensures
        entered(headers) == headers,
    decreases headers.len(),
{
    if headers.len() > 0 {
        let last = headers.last();
        assert(tidy(headers[headers.len() - 1]));
        assert forall|i: int| 0 <= i < headers.drop_last().len() implies tidy(
            #[trigger] headers.drop_last()[i],
        ) by {
            assert(tidy(headers[i]));
        }
        law_headers_round_trip(headers.drop_last());
        text::lemma_trimmed_unchanged(last.name);
        text::lemma_trimmed_unchanged(last.value);
        assert(headers.drop_last().push(last) =~= headers);
    } else {
        assert(headers =~= Seq::empty());
    }
}

/// Whatever rows were entered, each header that is stored has a name and no
/// white space around its parts.
pub proof fn law_stored_headers_are_tidy(rows: Seq<HeaderModel>)
    ensures
        entered(rows).len() <= rows.len(),
        forall|i: int| 0 <= i < entered(rows).len() ==> tidy(#[trigger] entered(rows)[i]),
        entered(entered(rows)) == entered(rows),
    decreases rows.len(),
{
    if rows.len() > 0 {
        law_stored_headers_are_tidy(rows.drop_last());
        text::law_trim_is_idempotent(rows.last().name);
        text::law_trim_is_idempotent(rows.last().value);
    }
    law_headers_round_trip(entered(rows));
}

/// A row with a blank name is as good as none.
pub proof fn law_blank_rows_do_not_count(rows: Seq<HeaderModel>, blank: HeaderModel)
    requires
        text::trim(blank.name).len() == 0,
    ensures
        entered(rows.push(blank)) == entered(rows),
{
    assert(rows.push(blank).drop_last() =~= rows);
}

/// Each row is read by itself, and the rows in their order.
pub proof fn law_rows_are_read_one_by_one(a: Seq<HeaderModel>, b: Seq<HeaderModel>)
    ensures
        entered(a + b) == entered(a) + entered(b),
        entered(Seq::empty()) == Seq::<HeaderModel>::empty(),
    decreases b.len(),
{
    if b.len() == 0 {
        assert(a + b =~= a);
        assert(entered(a) + entered(b) =~= entered(a));
    } else {
        assert((a + b).drop_last() =~= a + b.drop_last());
        assert((a + b).last() == b.last());
        law_rows_are_read_one_by_one(a, b.drop_last());
        assert(entered(a + b) =~= entered(a) + entered(b));
    }
}

/// What is read from a row is all that was typed but the white space around
/// it. A row without a name gives no header.
pub proof fn law_row_loses_the_white_space_around_it(
    a: Seq<char>,
    b: Seq<char>,
    name: Seq<char>,
    value: Seq<char>,
)
    requires
        text::all_white(a),
        text::all_white(b),
        text::is_core(name) || name.len() == 0,
        text::is_core(value) || value.len() == 0,
    ensures
        ({
            let row = HeaderModel { name: a + name + b, value: a + value + b };
            &&& name.len() > 0 ==> entered(seq![row]) == seq![HeaderModel { name, value }]
            &&& name.len() == 0 ==> entered(seq![row]) == Seq::<HeaderModel>::empty()
        }),
{
    let row = HeaderModel { name: a + name + b, value: a + value + b };
    text::law_trim_removes_white_space_only(a, name, b);
    text::law_trim_removes_white_space_only(a, value, b);
    if name.len() == 0 {
        assert(a + name + b =~= a + b);
    }
    if value.len() == 0 {
        assert(a + value + b =~= a + b);
        assert(text::trim(a + value + b) =~= value);
    }
    assert(seq![row].drop_last() =~= Seq::empty());
    assert(entered(seq![row].drop_last()) =~= Seq::empty());
    assert(Seq::<HeaderModel>::empty().push(HeaderModel { name, value }) =~= seq![
        HeaderModel { name, value },
    ]);
}

} // verus!
