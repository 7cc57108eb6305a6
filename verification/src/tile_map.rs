//! Tables keyed by tile: rows sorted by key, searched by halving.

use crate::downloader::TileKey;
use vstd::prelude::*;

verus! {

/// The order of tile keys: by provider, then zoom, column and row.
pub open spec fn before(a: TileKey, b: TileKey) -> bool {
    ||| a.provider < b.provider
    ||| a.provider == b.provider && a.tile.z < b.tile.z
    ||| a.provider == b.provider && a.tile.z == b.tile.z && a.tile.x < b.tile.x
    ||| a.provider == b.provider && a.tile.z == b.tile.z && a.tile.x == b.tile.x && a.tile.y
        < b.tile.y
}

/// Whether `a` comes before `b`.
fn comes_before(a: TileKey, b: TileKey) -> (r: bool)
    ensures
        r == before(a, b),
{
    if a.provider != b.provider {
        a.provider < b.provider
    } else if a.tile.z != b.tile.z {
        a.tile.z < b.tile.z
    } else if a.tile.x != b.tile.x {
        a.tile.x < b.tile.x
    } else {
        a.tile.y < b.tile.y
    }
}

/// A table from tile keys to values, at most one value for each key.
pub struct TileMap<T> {
    rows: Vec<(TileKey, T)>,
}

/// The keys of a row of entries.
pub open spec fn keys_of<T>(rows: Seq<(TileKey, T)>) -> Seq<TileKey> {
    rows.map_values(|row: (TileKey, T)| row.0)
}

/// The table that a row of entries stands for.
pub open spec fn table_of<T>(rows: Seq<(TileKey, T)>) -> Map<TileKey, T> {
    Map::new(
        |k: TileKey| exists|i: int| 0 <= i < rows.len() && (#[trigger] rows[i]).0 == k,
        |k: TileKey| rows[choose|i: int| 0 <= i < rows.len() && (#[trigger] rows[i]).0 == k].1,
    )
}

/// Whether the entries are strictly sorted by key.
pub open spec fn sorted<T>(rows: Seq<(TileKey, T)>) -> bool {
    forall|i: int, j: int|
        0 <= i < j < rows.len() ==> before((#[trigger] rows[i]).0, (#[trigger] rows[j]).0)
}

/// In a sorted row, each entry is what the table holds for its key.
proof fn lemma_entry<T>(rows: Seq<(TileKey, T)>, i: int)
    requires
        sorted(rows),
        0 <= i < rows.len(),
    ensures
        table_of(rows).contains_key(rows[i].0),
        table_of(rows)[rows[i].0] == rows[i].1,
{
    let k = rows[i].0;
    let c = choose|c: int| 0 <= c < rows.len() && (#[trigger] rows[c]).0 == k;
    if c < i {
        assert(before(rows[c].0, rows[i].0));
    } else if i < c {
        assert(before(rows[i].0, rows[c].0));
    }
}

/// A sorted row has as many entries as its table has keys.
proof fn lemma_table_len<T>(rows: Seq<(TileKey, T)>)
    requires
        sorted(rows),
    ensures
        table_of(rows).dom().finite(),
        table_of(rows).len() == rows.len(),
{
    let keys = keys_of(rows);
    assert(keys.no_duplicates()) by {
        assert forall|i: int, j: int| 0 <= i < keys.len() && 0 <= j < keys.len() && i != j implies keys[i]
            != keys[j] by {
            if i < j {
                assert(before(rows[i].0, rows[j].0));
            } else {
                assert(before(rows[j].0, rows[i].0));
            }
        }
    }
    keys.unique_seq_to_set();
    assert(table_of(rows).dom() =~= keys.to_set()) by {
        assert forall|k: TileKey| keys.to_set().contains(k) implies table_of(
            rows,
        ).dom().contains(k) by {
            let i = choose|i: int| 0 <= i < keys.len() && keys[i] == k;
            assert(rows[i].0 == k);
        }
        assert forall|k: TileKey| table_of(rows).dom().contains(k) implies keys.to_set().contains(
            k,
        ) by {
            let i = choose|i: int| 0 <= i < rows.len() && (#[trigger] rows[i]).0 == k;
            assert(keys[i] == k);
        }
    }
}

impl<T> View for TileMap<T> {
    type V = Map<TileKey, T>;

    closed spec fn view(&self) -> Map<TileKey, T> {
        table_of(self.rows@)
    }
}

impl<T> TileMap<T> {
    /// Whether the rows are in order.
    pub closed spec fn wf(&self) -> bool {
        sorted(self.rows@)
    }

    /// An empty table.
    pub fn new() -> (r: Self)
        ensures
            r.wf(),
            r@ == Map::<TileKey, T>::empty(),
    {
        let r = TileMap { rows: Vec::new() };
        proof {
            assert(table_of(r.rows@) =~= Map::<TileKey, T>::empty());
        }
        r
    }

    /// Where `key` stands, or where it would have to stand.
    fn position(&self, key: TileKey) -> (r: usize)
        requires
            self.wf(),
        ensures
            r <= self.rows@.len(),
            forall|i: int| 0 <= i < r ==> before((#[trigger] self.rows@[i]).0, key),
            forall|i: int|
                r <= i < self.rows@.len() ==> !before((#[trigger] self.rows@[i]).0, key),
    {
        let mut low: usize = 0;
        let mut high: usize = self.rows.len();
        while low < high
            invariant
                low <= high <= self.rows@.len(),
                sorted(self.rows@),
                forall|i: int| 0 <= i < low ==> before((#[trigger] self.rows@[i]).0, key),
                forall|i: int|
                    high <= i < self.rows@.len() ==> !before((#[trigger] self.rows@[i]).0, key),
            decreases high - low,
        {
            let mid: usize = low + (high - low) / 2;
            if comes_before(self.rows[mid].0, key) {
                proof {
                    assert forall|i: int| 0 <= i < mid + 1 implies before(
                        (#[trigger] self.rows@[i]).0,
                        key,
                    ) by {
                        if i < mid {
                            assert(before(self.rows@[i].0, self.rows@[mid as int].0));
                        }
                    }
                }
                low = mid + 1;
            } else {
                proof {
                    assert forall|i: int| mid <= i < self.rows@.len() implies !before(
                        (#[trigger] self.rows@[i]).0,
                        key,
                    ) by {
                        if mid < i {
                            assert(before(self.rows@[mid as int].0, self.rows@[i].0));
                        }
                    }
                }
                high = mid;
            }
        }
        low
    }

    /// Whether `key` stands at the position found for it.
    fn is_at(&self, at: usize, key: TileKey) -> (r: bool)
        requires
            self.wf(),
            at <= self.rows@.len(),
            forall|i: int| 0 <= i < at ==> before((#[trigger] self.rows@[i]).0, key),
            forall|i: int|
                at <= i < self.rows@.len() ==> !before((#[trigger] self.rows@[i]).0, key),
        ensures
            r == self@.contains_key(key),
            r ==> at < self.rows@.len() && self.rows@[at as int].0 == key,
            !r ==> forall|i: int|
                at <= i < self.rows@.len() ==> before(key, (#[trigger] self.rows@[i]).0),
    {
        let r = at < self.rows.len() && self.rows[at].0 == key;
        proof {
            if r {
                lemma_entry(self.rows@, at as int);
            } else {
                if self@.contains_key(key) {
                    let i = choose|i: int|
                        0 <= i < self.rows@.len() && (#[trigger] self.rows@[i]).0 == key;
                    if i >= at {
                        assert(at < self.rows@.len());
                        if i > at {
                            assert(before(self.rows@[at as int].0, self.rows@[i].0));
                        }
                    }
                }
            }
        }
        r
    }

    /// How many keys the table has.
    pub fn len(&self) -> (r: usize)
        requires
            self.wf(),
        ensures
            r == self@.len(),
            self@.dom().finite(),
    {
        proof {
            lemma_table_len(self.rows@);
        }
        self.rows.len()
    }

    /// Whether the table has `key`.
    pub fn contains(&self, key: TileKey) -> (r: bool)
        requires
            self.wf(),
        ensures
            r == self@.contains_key(key),
    {
        let at: usize = self.position(key);
        self.is_at(at, key)
    }

    /// The value of `key`.
    pub fn get(&self, key: TileKey) -> (r: Option<&T>)
        requires
            self.wf(),
        ensures
            match r {
                Some(value) => self@.contains_key(key) && *value == self@[key],
                None => !self@.contains_key(key),
            },
    {
        let at: usize = self.position(key);
        if self.is_at(at, key) {
            proof {
                lemma_entry(self.rows@, at as int);
            }
            Some(&self.rows[at].1)
        } else {
            None
        }
    }

    /// Gives `key` a value, in place of any it had.
    pub fn insert(&mut self, key: TileKey, value: T)
        requires
            old(self).wf(),
        ensures
            final(self).wf(),
            final(self)@ == old(self)@.insert(key, value),
    {
        let at: usize = self.position(key);
        let ghost prior = self.rows@;
        let ghost row = (key, value);
        if self.is_at(at, key) {
            self.rows.remove(at);
            self.rows.insert(at, (key, value));
            proof {
                assert(self.rows@ =~= prior.update(at as int, row));
            }
        } else {
            self.rows.insert(at, (key, value));
            proof {
                assert(self.rows@ =~= prior.insert(at as int, row));
            }
        }
        proof {
            lemma_insertion(prior, self.rows@, at as int, row);
        }
    }

    /// Removes `key`. Returns whether the table had it.
    pub fn remove(&mut self, key: TileKey) -> (r: bool)
        requires
            old(self).wf(),
        ensures
            final(self).wf(),
            final(self)@ == old(self)@.remove(key),
            r == old(self)@.contains_key(key),
    {
        let at: usize = self.position(key);
        let ghost prior = self.rows@;
        if self.is_at(at, key) {
            self.rows.remove(at);
            proof {
                lemma_removal(prior, at as int);
            }
            true
        } else {
            proof {
                assert(table_of(prior).remove(key) =~= table_of(prior));
            }
            false
        }
    }

    /// Removes every key.
    pub fn clear(&mut self)
        ensures
            final(self).wf(),
            final(self)@ == Map::<TileKey, T>::empty(),
    {
        self.rows.clear();
        proof {
            assert(table_of(self.rows@) =~= Map::<TileKey, T>::empty());
        }
    }
}

/// A row put in at the right place, or in place of the one with its key,
/// keeps the order and gives the table its value.
proof fn lemma_insertion<T>(
    prior: Seq<(TileKey, T)>,
    rows: Seq<(TileKey, T)>,
    at: int,
    row: (TileKey, T),
)
    requires
        sorted(prior),
        0 <= at <= prior.len(),
        forall|i: int| 0 <= i < at ==> before((#[trigger] prior[i]).0, row.0),
        ({
            ||| {
                &&& at < prior.len()
                &&& prior[at].0 == row.0
                &&& rows == prior.update(at, row)
            }
            ||| {
                &&& forall|i: int| at <= i < prior.len() ==> before(row.0, (#[trigger] prior[i]).0)
                &&& rows == prior.insert(at, row)
            }
        }),
    ensures
        sorted(rows),
        table_of(rows) == table_of(prior).insert(row.0, row.1),
{
    let replaced = at < prior.len() && prior[at].0 == row.0;
    assert(replaced ==> rows == prior.update(at, row)) by {
        if replaced {
            assert(!before(row.0, prior[at].0));
        }
    }
    let shift: int = if replaced {
        0
    } else {
        1
    };
    assert(forall|i: int| 0 <= i < at ==> rows[i] == prior[i]);
    assert(rows[at] == row);
    assert(forall|i: int| at < i < rows.len() ==> rows[i] == prior[i - shift]);
    assert forall|i: int| at < i < rows.len() implies before(row.0, (#[trigger] rows[i]).0) by {
        if replaced {
            assert(before(prior[at].0, prior[i].0));
        } else {
            assert(before(row.0, prior[i - 1].0));
        }
    }
    assert forall|i: int, j: int| 0 <= i < j < rows.len() implies before(
        (#[trigger] rows[i]).0,
        (#[trigger] rows[j]).0,
    ) by {
        if i < at && j > at {
            assert(before(prior[i].0, prior[j - shift].0));
        } else if i < at && j < at {
            assert(before(prior[i].0, prior[j].0));
        } else if i > at {
            assert(before(prior[i - shift].0, prior[j - shift].0));
        }
    }
    let new = table_of(rows);
    let want = table_of(prior).insert(row.0, row.1);
    assert forall|k: TileKey| new.contains_key(k) implies want.contains_key(k) && new[k]
        == want[k] by {
        let i = choose|i: int| 0 <= i < rows.len() && (#[trigger] rows[i]).0 == k;
        lemma_entry(rows, i);
        if i < at {
            lemma_entry(prior, i);
        } else if i > at {
            lemma_entry(prior, i - shift);
        }
    }
    assert forall|k: TileKey| want.contains_key(k) implies new.contains_key(k) by {
        if k == row.0 {
            lemma_entry(rows, at);
        } else {
            let i = choose|i: int| 0 <= i < prior.len() && (#[trigger] prior[i]).0 == k;
            if i < at {
                lemma_entry(rows, i);
            } else {
                assert(!replaced || i != at);
                lemma_entry(rows, i + shift);
            }
        }
    }
    assert(new =~= want);
}

/// A row taken out keeps the order and takes its key out of the table.
proof fn lemma_removal<T>(prior: Seq<(TileKey, T)>, at: int)
    requires
        sorted(prior),
        0 <= at < prior.len(),
    ensures
        sorted(prior.remove(at)),
        table_of(prior.remove(at)) == table_of(prior).remove(prior[at].0),
{
    let rows = prior.remove(at);
    assert(forall|i: int| 0 <= i < at ==> rows[i] == prior[i]);
    assert(forall|i: int| at <= i < rows.len() ==> rows[i] == prior[i + 1]);
    assert forall|i: int, j: int| 0 <= i < j < rows.len() implies before(
        (#[trigger] rows[i]).0,
        (#[trigger] rows[j]).0,
    ) by {
        let pi = if i < at {
            i
        } else {
            i + 1
        };
        let pj = if j < at {
            j
        } else {
            j + 1
        };
        assert(before(prior[pi].0, prior[pj].0));
    }
    let new = table_of(rows);
    let want = table_of(prior).remove(prior[at].0);
    assert forall|k: TileKey| new.contains_key(k) implies want.contains_key(k) && new[k]
        == want[k] by {
        let i = choose|i: int| 0 <= i < rows.len() && (#[trigger] rows[i]).0 == k;
        lemma_entry(rows, i);
        let pi = if i < at {
            i
        } else {
            i + 1
        };
        lemma_entry(prior, pi);
        if pi < at {
            assert(before(prior[pi].0, prior[at].0));
        } else {
            assert(before(prior[at].0, prior[pi].0));
        }
    }
    assert forall|k: TileKey| want.contains_key(k) implies new.contains_key(k) by {
        let i = choose|i: int| 0 <= i < prior.len() && (#[trigger] prior[i]).0 == k;
        assert(i != at);
        let ri = if i < at {
            i
        } else {
            i - 1
        };
        lemma_entry(rows, ri);
    }
    assert(new =~= want);
}

/// A set of tiles.
pub struct TileSet {
    members: TileMap<()>,
}

impl View for TileSet {
    type V = Set<TileKey>;

    closed spec fn view(&self) -> Set<TileKey> {
        self.members@.dom()
    }
}

impl TileSet {
    /// Whether the underlying table is in order.
    pub closed spec fn wf(&self) -> bool {
        self.members.wf()
    }

    /// An empty set.
    pub fn new() -> (r: Self)
        ensures
            r.wf(),
            r@ == Set::<TileKey>::empty(),
    {
        let r = TileSet { members: TileMap::new() };
        proof {
            assert(r@ =~= Set::<TileKey>::empty());
        }
        r
    }

    /// How many tiles the set has.
    pub fn len(&self) -> (r: usize)
        requires
            self.wf(),
        ensures
            r == self@.len(),
            self@.finite(),
    {
        self.members.len()
    }

    /// Whether the set has `key`.
    pub fn contains(&self, key: TileKey) -> (r: bool)
        requires
            self.wf(),
        ensures
            r == self@.contains(key),
    {
        self.members.contains(key)
    }

    /// Adds `key`. Returns whether it is new to the set.
    pub fn insert(&mut self, key: TileKey) -> (r: bool)
        requires
            old(self).wf(),
        ensures
            final(self).wf(),
            final(self)@ == old(self)@.insert(key),
            r == !old(self)@.contains(key),
    {
        if self.members.contains(key) {
            proof {
                assert(self@.insert(key) =~= self@);
            }
            false
        } else {
            self.members.insert(key, ());
            proof {
                assert(self@ =~= old(self)@.insert(key));
            }
            true
        }
    }

    /// Removes `key`. Returns whether the set had it.
    pub fn remove(&mut self, key: TileKey) -> (r: bool)
        requires
            old(self).wf(),
        ensures
            final(self).wf(),
            final(self)@ == old(self)@.remove(key),
            r == old(self)@.contains(key),
    {
        let r = self.members.remove(key);
        proof {
            assert(self@ =~= old(self)@.remove(key));
        }
        r
    }

    /// Removes every tile.
    pub fn clear(&mut self)
        ensures
            final(self).wf(),
            final(self)@ == Set::<TileKey>::empty(),
    {
        self.members.clear();
        proof {
            assert(self@ =~= Set::<TileKey>::empty());
        }
    }
}

} // verus!
