//! On-disk tile cache with size- and age-based eviction.
//!
//! Layout: `<dir>/<provider>/<z>/<x>/<y>.png`. A [`Cache`] holds the policy
//! in force; the caller takes a snapshot of it, does the file-system work,
//! and asks the snapshot what to do next.

use crate::config::CachePolicy;
#[allow(unused_imports)]
use crate::config::PolicyModel;
use crate::paths;
use crate::paths::{Environment, FsPath};
use crate::text;
use crate::tile::TileId;
use vstd::prelude::*;
#[allow(unused_imports)]
use vstd::utf8::*;

verus! {

/// Whether Unicode counts a character beyond ASCII as a letter or a number.
pub uninterp spec fn alphanumeric(c: char) -> bool;

/// Whether an ASCII character is a letter or a digit.
pub open spec fn ascii_alphanumeric(c: char) -> bool {
    ||| 'a' <= c <= 'z'
    ||| 'A' <= c <= 'Z'
    ||| '0' <= c <= '9'
}

/// `char::is_alphanumeric`: true for the ASCII letters and digits and for no
/// other ASCII character; beyond ASCII, what the Unicode tables say.
#[verifier::external_body]
fn is_alphanumeric(c: char) -> (r: bool)
    ensures
        r == (if c <= '\u{7f}' {
            ascii_alphanumeric(c)
        } else {
            alphanumeric(c)
        }),
{
    c.is_alphanumeric()
}

/// Whether a character of a provider's name may stand in a file name.
pub open spec fn path_safe(c: char) -> bool {
    ||| c == '-'
    ||| c == '_'
    ||| c <= '\u{7f}' && ascii_alphanumeric(c)
    ||| c > '\u{7f}' && alphanumeric(c)
}

/// A provider's name with every other character replaced by an underscore.
pub open spec fn sanitized(name: Seq<char>) -> Seq<char> {
    name.map_values(
        |c: char|
            if path_safe(c) {
                c
            } else {
                '_'
            },
    )
}

/// Replaces path-hostile characters in a provider's name.
pub fn sanitize(name: &str) -> (r: String)
    ensures
        r@ == sanitized(name@),
{
    let v = text::chars_of(name);
    let mut r = String::new();
    let mut i: usize = 0;
    while i < v.len()
        invariant
            i <= v@.len(),
            v@ == name@,
            r@.len() == i,
            forall|k: int| 0 <= k < i ==> #[trigger] r@[k] == sanitized(name@)[k],
        decreases v@.len() - i,
    {
        let c = v[i];
        if is_alphanumeric(c) || c == '-' || c == '_' {
            r.push(c);
        } else {
            r.push('_');
        }
        i += 1;
    }
    proof {
        assert(r@ =~= sanitized(name@));
    }
    r
}

/// Seconds in a day.
pub const DAY_SECS: u64 = 86400;

/// Nanoseconds in a second.
pub const SEC_NANOS: u128 = 1_000_000_000;

/// Bytes in a megabyte.
pub const MEGABYTE: u64 = 1_048_576;

/// The limits of a cache: where it lies, how many bytes it may hold (zero
/// for any number), and how many seconds a tile stays valid (`None` for
/// ever).
pub struct CacheLimits {
    pub dir: Seq<u8>,
    pub max_size: int,
    pub max_age: Option<int>,
}

/// The limits that a policy asks for.
pub open spec fn limits_of(policy: PolicyModel, env: Environment) -> CacheLimits {
    CacheLimits {
        dir: match policy.directory {
            Some(d) => paths::tilde_expanded(encode_utf8(d), paths::path_view(env.home)),
            None => paths::joined(
                crate::config::cache_home_path(env),
                encode_utf8("waltzgps"@),
            ),
        },
        max_size: if policy.max_size_mb * MEGABYTE <= u64::MAX {
            policy.max_size_mb * MEGABYTE
        } else {
            u64::MAX as int
        },
        max_age: if policy.max_age_days == 0 {
            None
        } else {
            Some(policy.max_age_days * DAY_SECS)
        },
    }
}

/// Whether the age limit of a policy can be counted in seconds.
pub open spec fn countable_age(policy: PolicyModel) -> bool {
    policy.max_age_days * DAY_SECS <= u64::MAX
}

/// The cache's policy in force.
#[derive(Debug)]
pub struct Cache {
    dir: FsPath,
    max_size: u64,
    max_age: Option<u64>,
}

impl View for Cache {
    type V = CacheLimits;

    closed spec fn view(&self) -> CacheLimits {
        CacheLimits {
            dir: self.dir@,
            max_size: self.max_size as int,
            max_age: match self.max_age {
                Some(secs) => Some(secs as int),
                None => None,
            },
        }
    }
}

/// Where the cache keeps the tile of a provider.
pub open spec fn tile_file(dir: Seq<u8>, provider: Seq<char>, tile: TileId) -> Seq<u8> {
    paths::joined(
        paths::joined(
            paths::joined(
                paths::joined(dir, encode_utf8(sanitized(provider))),
                encode_utf8(text::decimal(tile.z as nat)),
            ),
            encode_utf8(text::decimal(tile.x as nat)),
        ),
        encode_utf8(text::decimal(tile.y as nat) + ".png"@),
    )
}

/// What the file system says about a file that may be in the cache.
#[derive(Debug, Clone, Copy, PartialEq, Eq, Structural)]
pub enum FileAge {
    /// There is no such file.
    Missing,
    /// The file has no modification time.
    Unknown,
    /// The file was last modified this many nanoseconds ago.
    Elapsed(u128),
}

/// What to do about a file that may be in the cache.
#[derive(Debug, Clone, Copy, PartialEq, Eq, Structural)]
pub enum CacheRead {
    /// There is nothing to read.
    Absent,
    /// Remove the file; there is nothing to read.
    Expired,
    /// Read the file.
    Fresh,
}

/// Whether a file that was modified `elapsed` nanoseconds ago is too old.
pub open spec fn too_old(elapsed: int, max_age: Option<int>) -> bool {
    max_age is Some && elapsed > max_age->0 * SEC_NANOS
}

/// What to do about a file under an age limit.
pub open spec fn read_decision(file: FileAge, max_age: Option<int>) -> CacheRead {
    match file {
        FileAge::Missing => CacheRead::Absent,
        FileAge::Unknown => CacheRead::Fresh,
        FileAge::Elapsed(nanos) => if too_old(nanos as int, max_age) {
            CacheRead::Expired
        } else {
            CacheRead::Fresh
        },
    }
}

/// A file found in the cache directory.
#[derive(Debug, Clone, Copy, PartialEq, Eq, Structural)]
pub struct CachedFile {
    /// Size in bytes.
    pub size: u64,
    /// Time of the last modification, in nanoseconds since the epoch.
    pub modified: i128,
    /// Age in nanoseconds; zero if the modification lies in the future.
    pub elapsed: u128,
}

/// Whether a file is deleted for its age.
pub open spec fn aged_out(f: CachedFile, max_age: Option<int>) -> bool {
    too_old(f.elapsed as int, max_age)
}

/// The bytes of the first `n` files that are not deleted for their age.
pub open spec fn kept_bytes(files: Seq<CachedFile>, max_age: Option<int>, n: int) -> int
    decreases n,
{
    if n <= 0 {
        0
    } else {
        kept_bytes(files, max_age, n - 1) + (if aged_out(files[n - 1], max_age) {
            0
        } else {
            files[n - 1].size as int
        })
    }
}

/// Whether file `a` is evicted before file `b`: the one modified first, or
/// the one listed first where both were modified at once.
pub open spec fn evicted_before(files: Seq<CachedFile>, a: usize, b: usize) -> bool {
    ||| files[a as int].modified < files[b as int].modified
    ||| files[a as int].modified == files[b as int].modified && a < b
}

/// Whether `expired` lists the files that are deleted for their age, in the
/// order in which they were found.
pub open spec fn lists_expired(
    files: Seq<CachedFile>,
    max_age: Option<int>,
    expired: Seq<usize>,
) -> bool {
    &&& forall|i: int, j: int|
        0 <= i < j < expired.len() ==> #[trigger] expired[i] < #[trigger] expired[j]
    &&& forall|i: int|
        0 <= i < expired.len() ==> (#[trigger] expired[i]) < files.len() && aged_out(
            files[expired[i] as int],
            max_age,
        )
    &&& forall|f: usize|
        f < files.len() && aged_out(files[f as int], max_age) ==> #[trigger] expired.contains(f)
}

/// Whether `order` lists the files that are not deleted for their age, in
/// the order in which they are evicted.
pub open spec fn lists_by_age(
    files: Seq<CachedFile>,
    max_age: Option<int>,
    order: Seq<usize>,
) -> bool {
    &&& forall|i: int, j: int|
        0 <= i < j < order.len() ==> evicted_before(
            files,
            #[trigger] order[i],
            #[trigger] order[j],
        )
    &&& forall|i: int|
        0 <= i < order.len() ==> (#[trigger] order[i]) < files.len() && !aged_out(
            files[order[i] as int],
            max_age,
        )
    &&& forall|f: usize|
        f < files.len() && !aged_out(files[f as int], max_age) ==> #[trigger] order.contains(f)
}

/// The state of a run of the limits: the files that go for their age, the
/// others in order of eviction with their sizes, how many of these have been
/// tried, the bytes that are left in the cache, and the limit.
pub struct SweepModel {
    pub expired: Seq<usize>,
    pub order: Seq<usize>,
    pub sizes: Seq<u64>,
    pub tried: int,
    pub total: int,
    pub max_size: int,
}

/// Whether one more file has to go: there is a limit, the cache is above it,
/// and a file is left to try.
pub open spec fn wants_removal(m: SweepModel) -> bool {
    &&& m.max_size > 0
    &&& m.total > m.max_size
    &&& m.tried < m.order.len()
}

/// The state after the next file has been tried. Its bytes are gone only if
/// it could be removed.
pub open spec fn after_removal(m: SweepModel, removed: bool) -> SweepModel {
    let size = m.sizes[m.tried] as int;
    SweepModel {
        tried: m.tried + 1,
        total: if !removed {
            m.total
        } else if m.total >= size {
            m.total - size
        } else {
            0
        },
        ..m
    }
}

/// The sum of the sizes from position `i` on.
pub open spec fn bytes_from(sizes: Seq<u64>, i: int) -> int
    decreases sizes.len() - i,
{
    if i < 0 || i >= sizes.len() {
        0
    } else {
        sizes[i] + bytes_from(sizes, i + 1)
    }
}

/// A run of the age and size limits over the cache directory. Files are
/// named by their position in the list that the run was started with.
pub struct Sweep {
    /// The files to delete for their age, whether or not that succeeds.
    pub expired: Vec<usize>,
    /// The other files, oldest first.
    pub order: Vec<usize>,
    /// Their sizes.
    pub sizes: Vec<u64>,
    /// How many of them have been tried.
    pub tried: usize,
    /// The bytes left in the cache.
    pub total: u64,
    /// The size limit; zero for none.
    pub max_size: u64,
}

impl View for Sweep {
    type V = SweepModel;

    open spec fn view(&self) -> SweepModel {
        SweepModel {
            expired: self.expired@,
            order: self.order@,
            sizes: self.sizes@,
            tried: self.tried as int,
            total: self.total as int,
            max_size: self.max_size as int,
        }
    }
}

impl Sweep {
    /// Whether every file in the order of eviction has a size.
    pub open spec fn wf(&self) -> bool {
        &&& self@.order.len() == self@.sizes.len()
        &&& 0 <= self@.tried <= self@.order.len()
    }

    /// The file to remove next, oldest first, or `None` when the cache is
    /// within its limit or every file has been tried.
    pub fn next(&self) -> (r: Option<usize>)
        requires
            self.wf(),
        ensures
            r == (if wants_removal(self@) {
                Some(self@.order[self@.tried])
            } else {
                None
            }),
    {
        if self.max_size > 0 && self.total > self.max_size && self.tried < self.order.len() {
            Some(self.order[self.tried])
        } else {
            None
        }
    }

    /// Records whether the file given by [`Sweep::next`] could be removed.
    pub fn removed(&mut self, ok: bool)
        requires
            old(self).wf(),
            wants_removal(old(self)@),
        ensures
            final(self).wf(),
            final(self)@ == after_removal(old(self)@, ok),
    {
        if ok {
            self.total = self.total.saturating_sub(self.sizes[self.tried]);
        }
        let count: usize = self.order.len();
        proof {
            assert(self.tried < count);
        }
        self.tried = self.tried + 1;
    }
}

impl Clone for Cache {
    fn clone(&self) -> (r: Self)
        ensures
            r@ == self@,
    {
        Cache { dir: self.dir.clone(), max_size: self.max_size, max_age: self.max_age }
    }
}

/// A size limit in bytes, capped at what a counter can hold.
fn size_limit(megabytes: u64) -> (r: u64)
    ensures
        r == (if megabytes * MEGABYTE <= u64::MAX {
            megabytes * MEGABYTE
        } else {
            u64::MAX as int
        }),
{
    match megabytes.checked_mul(MEGABYTE) {
        Some(bytes) => bytes,
        None => u64::MAX,
    }
}

impl Cache {
    /// The limits of a policy, with the directory resolved: the XDG default
    /// when the policy does not name one, and a leading `~/` expanded.
    fn from_policy(policy: &CachePolicy, env: &Environment) -> (r: Self)
        requires
            countable_age(policy@),
        ensures
            r@ == limits_of(policy@, *env),
    {
        let dir = match &policy.directory {
            Some(d) => paths::expand_tilde(d.as_str(), &env.home),
            None => crate::config::cache_home(env).join("waltzgps"),
        };
        let max_age = if policy.max_age_days == 0 {
            None
        } else {
            Some(policy.max_age_days * DAY_SECS)
        };
        Cache { dir, max_size: size_limit(policy.max_size_mb), max_age }
    }

    /// Builds a cache from a policy.
    pub fn new(policy: &CachePolicy, env: &Environment) -> (r: Self)
        requires
            countable_age(policy@),
        ensures
            r@ == limits_of(policy@, *env),
    {
        Cache::from_policy(policy, env)
    }

    /// Replaces the policy in force. Files cached under another directory
    /// are left where they are.
    pub fn update_policy(&mut self, policy: &CachePolicy, env: &Environment)
        requires
            countable_age(policy@),
        ensures
            final(self)@ == limits_of(policy@, *env),
    {
        *self = Cache::from_policy(policy, env);
    }

    /// A copy of the limits in force, for work that must not see them
    /// change.
    pub fn snapshot(&self) -> (r: Cache)
        ensures
            r@ == self@,
    {
        self.clone()
    }

    /// The cache directory.
    pub fn directory(&self) -> (r: FsPath)
        ensures
            r@ == self@.dir,
    {
        self.dir.clone()
    }

    /// Where a cache in `dir` keeps the tile of a provider.
    pub fn tile_path(dir: &FsPath, provider: &str, tile: TileId) -> (r: FsPath)
        ensures
            r@ == tile_file(dir@, provider@, tile),
    {
        let name = sanitize(provider);
        let z_text = text::decimal_string(tile.z as u64);
        let x_text = text::decimal_string(tile.x as u64);
        let mut file = text::decimal_string(tile.y as u64);
        file.append(".png");
        dir.join(name.as_str()).join(z_text.as_str()).join(x_text.as_str()).join(file.as_str())
    }

    /// Where to look for a tile.
    pub fn path_of(&self, provider: &str, tile: TileId) -> (r: FsPath)
        ensures
            r@ == tile_file(self@.dir, provider@, tile),
    {
        Cache::tile_path(&self.dir, provider, tile)
    }

    /// Decides what to do about the file of a tile: read it if it is there
    /// and not expired.
    pub fn get(&self, file: FileAge) -> (r: CacheRead)
        ensures
            r == read_decision(file, self@.max_age),
    {
        match file {
            FileAge::Missing => CacheRead::Absent,
            FileAge::Unknown => CacheRead::Fresh,
            FileAge::Elapsed(nanos) => {
                if self.is_too_old(nanos) {
                    CacheRead::Expired
                } else {
                    CacheRead::Fresh
                }
            },
        }
    }

    /// Whether a file of the given age is past the age limit.
    fn is_too_old(&self, elapsed: u128) -> (r: bool)
        ensures
            r == too_old(elapsed as int, self@.max_age),
    {
        match self.max_age {
            Some(secs) => {
                proof {
                    assert(secs * SEC_NANOS <= u64::MAX * SEC_NANOS) by (nonlinear_arith)
                        requires
                            secs <= u64::MAX,
                    ;
                }
                elapsed > secs as u128 * SEC_NANOS
            },
            None => false,
        }
    }

    /// Where to store a tile. The caller creates the directories above it.
    pub fn put(&self, provider: &str, tile: TileId) -> (r: FsPath)
        ensures
            r@ == tile_file(self@.dir, provider@, tile),
    {
        self.path_of(provider, tile)
    }

    /// Starts a run of the age and size limits over the files found in the
    /// cache directory: expired files go first, then the oldest ones until
    /// what is left is within the size limit.
    pub fn enforce_policy(&self, files: &Vec<CachedFile>) -> (r: Sweep)
        requires
            kept_bytes(files@, self@.max_age, files@.len() as int) <= u64::MAX,
        ensures
            r.wf(),
            lists_expired(files@, self@.max_age, r@.expired),
            lists_by_age(files@, self@.max_age, r@.order),
            forall|i: int|
                0 <= i < r@.order.len() ==> #[trigger] r@.sizes[i] == files@[r@.order[i] as int].size,
            r@.tried == 0,
            r@.total == kept_bytes(files@, self@.max_age, files@.len() as int),
            r@.total == bytes_from(r@.sizes, 0),
            r@.max_size == self@.max_size,
    {
        let ghost age = self@.max_age;
        let mut expired: Vec<usize> = Vec::new();
        let mut kept: Vec<usize> = Vec::new();
        let mut total: u64 = 0;
        let count: usize = files.len();
        let mut i: usize = 0;
        while i < count
            invariant
                i <= count,
                count == files@.len(),
                age == self@.max_age,
                kept_bytes(files@, age, files@.len() as int) <= u64::MAX,
                listed_so_far(files@, age, i as int, expired@, kept@),
                total == kept_bytes(files@, age, i as int),
                total == bytes_of(files@, kept@),
            decreases count - i,
        {
            let ghost expired_before = expired@;
            let ghost kept_before = kept@;
            proof {
                lemma_kept_bytes_grows(files@, age, i + 1, files@.len() as int);
            }
            if self.is_too_old(files[i].elapsed) {
                expired.push(i);
                proof {
                    lemma_listed_expired(files@, age, i as int, expired_before, kept_before);
                }
            } else {
                kept.push(i);
                total = total + files[i].size;
                proof {
                    lemma_listed_kept(files@, age, i as int, expired_before, kept_before);
                    lemma_bytes_of_push(files@, kept_before, i);
                }
            }
            i += 1;
        }
        let order = sorted_by_age(files, &kept, 0, kept.len());
        proof {
            assert(kept@.subrange(0, kept@.len() as int) =~= kept@);
            lemma_order_lists(files@, age, kept@, order@);
        }
        let mut sizes: Vec<u64> = Vec::new();
        let mut k: usize = 0;
        while k < order.len()
            invariant
                k <= order@.len(),
                sizes@.len() == k,
                forall|j: int|
                    0 <= j < order@.len() ==> (#[trigger] order@[j]) < files@.len(),
                forall|j: int| 0 <= j < k ==> #[trigger] sizes@[j] == files@[order@[j] as int].size,
            decreases order@.len() - k,
        {
            sizes.push(files[order[k]].size);
            k += 1;
        }
        proof {
            lemma_sizes_sum(files@, order@, sizes@, 0);
            assert(order@.skip(0) =~= order@);
        }
        Sweep { expired, order, sizes, tried: 0, total, max_size: self.max_size }
    }
}

/// The bytes of a row of files.
spec fn bytes_of(files: Seq<CachedFile>, row: Seq<usize>) -> int
    decreases row.len(),
{
    if row.len() == 0 {
        0
    } else {
        files[row[0] as int].size + bytes_of(files, row.skip(1))
    }
}

/// One more file adds its bytes.
proof fn lemma_bytes_of_push(files: Seq<CachedFile>, row: Seq<usize>, f: usize)
    ensures
        bytes_of(files, row.push(f)) == bytes_of(files, row) + files[f as int].size,
    decreases row.len(),
{
    if row.len() == 0 {
        assert(row.push(f).skip(1) =~= row);
    } else {
        assert(row.push(f).skip(1) =~= row.skip(1).push(f));
        lemma_bytes_of_push(files, row.skip(1), f);
    }
}

/// Two rows have the bytes of one and those of the other.
proof fn lemma_bytes_of_sum(files: Seq<CachedFile>, a: Seq<usize>, b: Seq<usize>)
    ensures
        bytes_of(files, a + b) == bytes_of(files, a) + bytes_of(files, b),
    decreases a.len(),
{
    if a.len() == 0 {
        assert(a + b =~= b);
    } else {
        assert((a + b).skip(1) =~= a.skip(1) + b);
        lemma_bytes_of_sum(files, a.skip(1), b);
    }
}

/// The sum of the sizes of a row of files is the row's bytes.
proof fn lemma_sizes_sum(files: Seq<CachedFile>, row: Seq<usize>, sizes: Seq<u64>, i: int)
    requires
        sizes.len() == row.len(),
        0 <= i <= row.len(),
        forall|j: int| 0 <= j < row.len() ==> #[trigger] sizes[j] == files[row[j] as int].size,
    ensures
        bytes_from(sizes, i) == bytes_of(files, row.skip(i)),
    decreases row.len() - i,
{
    if i < row.len() {
        lemma_sizes_sum(files, row, sizes, i + 1);
        assert(row.skip(i).skip(1) =~= row.skip(i + 1));
        assert(sizes[i] == files[row[i] as int].size);
    }
}

/// Whether a row is in order of eviction.
spec fn by_age(files: Seq<CachedFile>, row: Seq<usize>) -> bool {
    forall|i: int, j: int|
        0 <= i < j < row.len() ==> evicted_before(files, #[trigger] row[i], #[trigger] row[j])
}

/// Whether two rows have the same files in them.
spec fn same_files(a: Seq<usize>, b: Seq<usize>) -> bool {
    &&& forall|i: int| 0 <= i < a.len() ==> b.contains(#[trigger] a[i])
    &&& forall|i: int| 0 <= i < b.len() ==> a.contains(#[trigger] b[i])
}

/// Merges two rows that are in order of eviction, where every file of the
/// first was found before every file of the second.
fn merged(files: &Vec<CachedFile>, a: &Vec<usize>, b: &Vec<usize>) -> (r: Vec<usize>)
    requires
        by_age(files@, a@),
        by_age(files@, b@),
        forall|i: int| 0 <= i < a@.len() ==> (#[trigger] a@[i]) < files@.len(),
        forall|i: int| 0 <= i < b@.len() ==> (#[trigger] b@[i]) < files@.len(),
        forall|i: int, j: int|
            0 <= i < a@.len() && 0 <= j < b@.len() ==> #[trigger] a@[i] < #[trigger] b@[j],
    ensures
        by_age(files@, r@),
        same_files(r@, a@ + b@),
        bytes_of(files@, r@) == bytes_of(files@, a@) + bytes_of(files@, b@),
{
    let mut r: Vec<usize> = Vec::new();
    let mut i: usize = 0;
    let mut j: usize = 0;
    proof {
        assert(a@.skip(0) =~= a@);
        assert(b@.skip(0) =~= b@);
    }
    while i < a.len() || j < b.len()
        invariant
            i <= a@.len(),
            j <= b@.len(),
            by_age(files@, a@),
            by_age(files@, b@),
            forall|k: int| 0 <= k < a@.len() ==> (#[trigger] a@[k]) < files@.len(),
            forall|k: int| 0 <= k < b@.len() ==> (#[trigger] b@[k]) < files@.len(),
            forall|k: int, l: int|
                0 <= k < a@.len() && 0 <= l < b@.len() ==> #[trigger] a@[k] < #[trigger] b@[l],
            by_age(files@, r@),
            forall|k: int, l: int|
                0 <= k < r@.len() && i <= l < a@.len() ==> evicted_before(
                    files@,
                    #[trigger] r@[k],
                    #[trigger] a@[l],
                ),
            forall|k: int, l: int|
                0 <= k < r@.len() && j <= l < b@.len() ==> evicted_before(
                    files@,
                    #[trigger] r@[k],
                    #[trigger] b@[l],
                ),
            forall|k: int| 0 <= k < r@.len() ==> (a@ + b@).contains(#[trigger] r@[k]),
            forall|k: int| 0 <= k < i ==> r@.contains(#[trigger] a@[k]),
            forall|k: int| 0 <= k < j ==> r@.contains(#[trigger] b@[k]),
            bytes_of(files@, r@) + bytes_of(files@, a@.skip(i as int)) + bytes_of(
                files@,
                b@.skip(j as int),
            ) == bytes_of(files@, a@) + bytes_of(files@, b@),
        decreases a@.len() - i + b@.len() - j,
    {
        let ghost before = r@;
        let first = j >= b.len() || i < a.len() && files[a[i]].modified <= files[b[j]].modified;
        let f: usize = if first {
            a[i]
        } else {
            b[j]
        };
        r.push(f);
        proof {
            lemma_bytes_of_push(files@, before, f);
            assert(r@[before.len() as int] == f);
            assert forall|k: int| 0 <= k < before.len() implies r@[k] == before[k] by {}
            assert forall|x: usize| before.contains(x) implies r@.contains(x) by {
                let k = choose|k: int| 0 <= k < before.len() && before[k] == x;
                assert(r@[k] == x);
            }
            if first {
                assert(a@.skip(i as int).skip(1) =~= a@.skip(i + 1));
                assert((a@ + b@)[i as int] == f);
            } else {
                assert(b@.skip(j as int).skip(1) =~= b@.skip(j + 1));
                assert((a@ + b@)[a@.len() + j] == f);
            }
        }
        if first {
            i += 1;
        } else {
            j += 1;
        }
    }
    proof {
        assert forall|k: int| 0 <= k < (a@ + b@).len() implies r@.contains(
            #[trigger] (a@ + b@)[k],
        ) by {
            if k < a@.len() {
                assert((a@ + b@)[k] == a@[k]);
            } else {
                assert((a@ + b@)[k] == b@[k - a@.len()]);
            }
        }
    }
    r
}

/// The files `kept[from..to]`, which are in the order in which they were
/// found, in order of eviction.
fn sorted_by_age(files: &Vec<CachedFile>, kept: &Vec<usize>, from: usize, to: usize) -> (r: Vec<
    usize,
>)
    requires
        from <= to <= kept@.len(),
        forall|i: int| 0 <= i < kept@.len() ==> (#[trigger] kept@[i]) < files@.len(),
        forall|i: int, j: int|
            0 <= i < j < kept@.len() ==> #[trigger] kept@[i] < #[trigger] kept@[j],
    ensures
        by_age(files@, r@),
        same_files(r@, kept@.subrange(from as int, to as int)),
        bytes_of(files@, r@) == bytes_of(files@, kept@.subrange(from as int, to as int)),
    decreases to - from,
{
    let ghost part = kept@.subrange(from as int, to as int);
    if to - from <= 1 {
        let mut r: Vec<usize> = Vec::new();
        if from < to {
            r.push(kept[from]);
        }
        proof {
            assert(r@ =~= part);
            assert forall|i: int| 0 <= i < r@.len() implies part.contains(#[trigger] r@[i]) by {
                assert(part[i] == r@[i]);
            }
        }
        return r;
    }
    let mid: usize = from + (to - from) / 2;
    let ghost left = kept@.subrange(from as int, mid as int);
    let ghost right = kept@.subrange(mid as int, to as int);
    let a = sorted_by_age(files, kept, from, mid);
    let b = sorted_by_age(files, kept, mid, to);
    proof {
        assert(part =~= left + right);
        lemma_bytes_of_sum(files@, left, right);
        assert forall|i: int| 0 <= i < a@.len() implies (#[trigger] a@[i]) < files@.len() by {
            assert(left.contains(a@[i]));
        }
        assert forall|i: int| 0 <= i < b@.len() implies (#[trigger] b@[i]) < files@.len() by {
            assert(right.contains(b@[i]));
        }
        assert forall|i: int, j: int| 0 <= i < a@.len() && 0 <= j < b@.len() implies
            #[trigger] a@[i] < #[trigger] b@[j] by {
            assert(left.contains(a@[i]));
            assert(right.contains(b@[j]));
        }
    }
    let r = merged(files, &a, &b);
    proof {
        lemma_same_parts(r@, a@, b@, left, right);
    }
    r
}

/// A row made of two parts has the files of any rows that have the files of
/// the parts.
proof fn lemma_same_parts(
    r: Seq<usize>,
    a: Seq<usize>,
    b: Seq<usize>,
    left: Seq<usize>,
    right: Seq<usize>,
)
    requires
        same_files(r, a + b),
        same_files(a, left),
        same_files(b, right),
    ensures
        same_files(r, left + right),
{
    assert forall|i: int| 0 <= i < r.len() implies (left + right).contains(#[trigger] r[i]) by {
        assert((a + b).contains(r[i]));
        let k = choose|k: int| 0 <= k < (a + b).len() && (a + b)[k] == r[i];
        if k < a.len() {
            assert(left.contains(a[k]));
            let l = choose|l: int| 0 <= l < left.len() && left[l] == a[k];
            assert((left + right)[l] == r[i]);
        } else {
            assert(right.contains(b[k - a.len()]));
            let l = choose|l: int| 0 <= l < right.len() && right[l] == b[k - a.len()];
            assert((left + right)[left.len() + l] == r[i]);
        }
    }
    assert forall|i: int| 0 <= i < (left + right).len() implies r.contains(
        #[trigger] (left + right)[i],
    ) by {
        let x = (left + right)[i];
        if i < left.len() {
            assert(left[i] == x);
            assert(a.contains(x));
            let k = choose|k: int| 0 <= k < a.len() && a[k] == x;
            assert((a + b)[k] == x);
            assert(r.contains((a + b)[k]));
        } else {
            assert(right[i - left.len()] == x);
            assert(b.contains(x));
            let k = choose|k: int| 0 <= k < b.len() && b[k] == x;
            assert((a + b)[a.len() + k] == x);
            assert(r.contains((a + b)[a.len() + k]));
        }
    }
}

/// The files that stay, in order of eviction, are listed by age.
proof fn lemma_order_lists(
    files: Seq<CachedFile>,
    max_age: Option<int>,
    kept: Seq<usize>,
    order: Seq<usize>,
)
    requires
        by_age(files, order),
        same_files(order, kept),
        forall|i: int|
            0 <= i < kept.len() ==> (#[trigger] kept[i]) < files.len() && !aged_out(
                files[kept[i] as int],
                max_age,
            ),
        forall|f: usize|
            f < files.len() && !aged_out(files[f as int], max_age) ==> #[trigger] kept.contains(f),
    ensures
        lists_by_age(files, max_age, order),
{
    assert forall|i: int| 0 <= i < order.len() implies (#[trigger] order[i]) < files.len()
        && !aged_out(files[order[i] as int], max_age) by {
        assert(kept.contains(order[i]));
    }
    assert forall|f: usize|
        f < files.len() && !aged_out(files[f as int], max_age) implies #[trigger] order.contains(
        f,
    ) by {
        assert(kept.contains(f));
        let k = choose|k: int| 0 <= k < kept.len() && kept[k] == f;
        assert(order.contains(kept[k]));
    }
}

/// The two lists after the first `n` files, both in the order in which the
/// files were found.
spec fn listed_so_far(
    files: Seq<CachedFile>,
    max_age: Option<int>,
    n: int,
    expired: Seq<usize>,
    kept: Seq<usize>,
) -> bool {
    &&& 0 <= n <= files.len() <= usize::MAX
    &&& forall|i: int, j: int|
        0 <= i < j < expired.len() ==> #[trigger] expired[i] < #[trigger] expired[j]
    &&& forall|i: int|
        0 <= i < expired.len() ==> (#[trigger] expired[i]) < n && aged_out(
            files[expired[i] as int],
            max_age,
        )
    &&& forall|f: usize|
        f < n && aged_out(files[f as int], max_age) ==> #[trigger] expired.contains(f)
    &&& forall|i: int, j: int| 0 <= i < j < kept.len() ==> #[trigger] kept[i] < #[trigger] kept[j]
    &&& forall|i: int|
        0 <= i < kept.len() ==> (#[trigger] kept[i]) < n && !aged_out(
            files[kept[i] as int],
            max_age,
        )
    &&& forall|f: usize|
        f < n && !aged_out(files[f as int], max_age) ==> #[trigger] kept.contains(f)
}

/// What stood in a row still does when one more file stands at its end.
proof fn lemma_push_contains(row: Seq<usize>, last: usize, f: usize)
    requires
        row.contains(f) || f == last,
    ensures
        row.push(last).contains(f),
{
    if f == last {
        assert(row.push(last)[row.len() as int] == f);
    } else {
        let k = choose|k: int| 0 <= k < row.len() && row[k] == f;
        assert(row.push(last)[k] == f);
    }
}

/// One more expired file goes to the end of its list.
proof fn lemma_listed_expired(
    files: Seq<CachedFile>,
    max_age: Option<int>,
    n: int,
    expired: Seq<usize>,
    kept: Seq<usize>,
)
    requires
        listed_so_far(files, max_age, n, expired, kept),
        n < files.len(),
        aged_out(files[n], max_age),
    ensures
        listed_so_far(files, max_age, n + 1, expired.push(n as usize), kept),
{
    assert forall|f: usize| f < n + 1 && aged_out(files[f as int], max_age) implies #[trigger] expired.push(
        n as usize,
    ).contains(f) by {
        lemma_push_contains(expired, n as usize, f);
    }
    assert forall|f: usize| f < n + 1 && !aged_out(files[f as int], max_age) implies #[trigger] kept.contains(
        f,
    ) by {
        assert(f != n);
    }
}

/// One more file that stays goes to the end of its list.
proof fn lemma_listed_kept(
    files: Seq<CachedFile>,
    max_age: Option<int>,
    n: int,
    expired: Seq<usize>,
    kept: Seq<usize>,
)
    requires
        listed_so_far(files, max_age, n, expired, kept),
        n < files.len(),
        !aged_out(files[n], max_age),
    ensures
        listed_so_far(files, max_age, n + 1, expired, kept.push(n as usize)),
{
    assert forall|f: usize| f < n + 1 && !aged_out(files[f as int], max_age) implies #[trigger] kept.push(
        n as usize,
    ).contains(f) by {
        lemma_push_contains(kept, n as usize, f);
    }
    assert forall|f: usize| f < n + 1 && aged_out(files[f as int], max_age) implies #[trigger] expired.contains(
        f,
    ) by {
        assert(f != n);
    }
}

/// The bytes that stay do not shrink as more files are counted.
proof fn lemma_kept_bytes_grows(files: Seq<CachedFile>, max_age: Option<int>, a: int, b: int)
    requires
        0 <= a <= b <= files.len(),
    ensures
        kept_bytes(files, max_age, a) <= kept_bytes(files, max_age, b),
    decreases b - a,
{
    if a < b {
        lemma_kept_bytes_grows(files, max_age, a, b - 1);
    }
}

/// The end of an eviction in which every removal succeeds.
pub open spec fn swept(m: SweepModel) -> SweepModel
    decreases m.order.len() - m.tried,
{
    if wants_removal(m) {
        swept(after_removal(m, true))
    } else {
        m
    }
}

/// Where every removal succeeds, an eviction under a size limit ends within
/// the limit.
pub proof fn law_sweep_ends_within_limit(m: SweepModel)
    requires
        m.order.len() == m.sizes.len(),
        0 <= m.tried <= m.order.len(),
        m.total == bytes_from(m.sizes, m.tried),
        m.max_size > 0,
    ensures
        swept(m).total <= m.max_size,
        swept(m).total == bytes_from(m.sizes, swept(m).tried),
    decreases m.order.len() - m.tried,
{
    if wants_removal(m) {
        lemma_bytes_nonneg(m.sizes, m.tried + 1);
        law_sweep_ends_within_limit(after_removal(m, true));
    }
}

/// A sum of sizes is not negative.
proof fn lemma_bytes_nonneg(sizes: Seq<u64>, i: int)
    ensures
        bytes_from(sizes, i) >= 0,
    decreases sizes.len() - i,
{
    if 0 <= i < sizes.len() {
        lemma_bytes_nonneg(sizes, i + 1);
    }
}

/// An eviction takes no more files than it has to: with one file less gone,
/// the cache would still be above its limit.
pub proof fn law_sweep_is_minimal(m: SweepModel)
    requires
        m.order.len() == m.sizes.len(),
        0 <= m.tried <= m.order.len(),
        m.total == bytes_from(m.sizes, m.tried),
    ensures
        swept(m).tried >= m.tried,
        swept(m).tried > m.tried ==> bytes_from(m.sizes, swept(m).tried - 1) > m.max_size,
    decreases m.order.len() - m.tried,
{
    if wants_removal(m) {
        lemma_bytes_nonneg(m.sizes, m.tried + 1);
        law_sweep_is_minimal(after_removal(m, true));
    }
}

/// A cache without a size limit, or within it, loses nothing to the size
/// limit.
pub proof fn law_no_size_eviction_within_limit(m: SweepModel)
    requires
        m.max_size == 0 || m.total <= m.max_size,
    ensures
        !wants_removal(m),
{
}

/// Without an age limit no file expires, however old it is.
pub proof fn law_never_expires_without_age_limit(policy: PolicyModel, env: Environment, file: FileAge)
    requires
        policy.max_age_days == 0,
    ensures
        read_decision(file, limits_of(policy, env).max_age) != CacheRead::Expired,
        forall|f: CachedFile| !aged_out(f, limits_of(policy, env).max_age),
{
}

/// A sanitized name stays as it is, has the length of the name it came from,
/// and holds neither a separator nor a dot.
pub proof fn law_sanitized_is_safe(name: Seq<char>)
    ensures
        sanitized(name).len() == name.len(),
        forall|i: int| 0 <= i < name.len() ==> path_safe(#[trigger] sanitized(name)[i]),
        forall|i: int|
            0 <= i < name.len() ==> #[trigger] sanitized(name)[i] != '/' && sanitized(name)[i]
                != '.',
        sanitized(sanitized(name)) == sanitized(name),
{
    assert(sanitized(sanitized(name)) =~= sanitized(name));
}

/// `dir` as it stands before the name of something in it.
pub open spec fn opened(dir: Seq<u8>) -> Seq<u8> {
    if dir.len() == 0 || dir.last() == paths::SEPARATOR {
        dir
    } else {
        dir.push(paths::SEPARATOR)
    }
}

/// The shape of a tile's path below the cache directory.
proof fn lemma_tile_file_shape(
    dir: Seq<u8>,
    name: Seq<u8>,
    z: Seq<u8>,
    x: Seq<u8>,
    y: Seq<u8>,
) -> (head: Seq<u8>)
    requires
        paths::one_component(name),
        paths::one_component(z),
        paths::one_component(x),
        paths::one_component(y),
        z.len() > 0,
        x.len() > 0,
        y.len() > 0,
    ensures
        paths::joined(paths::joined(paths::joined(paths::joined(dir, name), z), x), y) == (head.push(
            paths::SEPARATOR,
        ) + x).push(paths::SEPARATOR) + y,
        name.len() == 0 ==> head == opened(dir) + z,
        name.len() > 0 ==> head == (opened(dir) + name).push(paths::SEPARATOR) + z,
{
    let a = paths::joined(dir, name);
    assert(a =~= opened(dir) + name);
    let head = paths::joined(a, z);
    if name.len() == 0 {
        assert(a =~= opened(dir));
        assert(head =~= opened(dir) + z);
    } else {
        assert(a.last() == name.last());
        assert(name.last() == name[name.len() - 1]);
        assert(head =~= (opened(dir) + name).push(paths::SEPARATOR) + z);
    }
    assert(head.last() == z[z.len() - 1]);
    let b = paths::joined(head, x);
    assert(b == head.push(paths::SEPARATOR) + x);
    assert(b.last() == x[x.len() - 1]);
    head
}

/// In one cache directory, tiles share a file only if they are the same tile
/// of providers whose names are sanitized alike.
pub proof fn law_tile_files_are_distinct(
    dir: Seq<u8>,
    p1: Seq<char>,
    t1: TileId,
    p2: Seq<char>,
    t2: TileId,
)
    requires
        tile_file(dir, p1, t1) == tile_file(dir, p2, t2),
    ensures
        sanitized(p1) == sanitized(p2),
        t1 == t2,
{
    lemma_tile_parts(p1, t1);
    lemma_tile_parts(p2, t2);
    let n1 = encode_utf8(sanitized(p1));
    let z1 = encode_utf8(text::decimal(t1.z as nat));
    let x1 = encode_utf8(text::decimal(t1.x as nat));
    let y1 = encode_utf8(text::decimal(t1.y as nat) + ".png"@);
    let n2 = encode_utf8(sanitized(p2));
    let z2 = encode_utf8(text::decimal(t2.z as nat));
    let x2 = encode_utf8(text::decimal(t2.x as nat));
    let y2 = encode_utf8(text::decimal(t2.y as nat) + ".png"@);
    let h1 = lemma_tile_file_shape(dir, n1, z1, x1, y1);
    let h2 = lemma_tile_file_shape(dir, n2, z2, x2, y2);
    paths::lemma_last_component(
        h1.push(paths::SEPARATOR) + x1,
        y1,
        h2.push(paths::SEPARATOR) + x2,
        y2,
    );
    paths::lemma_last_component(h1, x1, h2, x2);
    let d = opened(dir);
    if n1.len() == 0 && n2.len() == 0 {
        assert(z1 =~= h1.skip(d.len() as int));
        assert(z2 =~= h2.skip(d.len() as int));
    } else if n1.len() > 0 && n2.len() > 0 {
        paths::lemma_last_component(d + n1, z1, d + n2, z2);
        assert(n1 =~= (d + n1).skip(d.len() as int));
        assert(n2 =~= (d + n2).skip(d.len() as int));
    } else if n1.len() == 0 {
        let at = (d.len() + n2.len()) as int;
        assert(h2[at] == paths::SEPARATOR);
        assert(h1[at] == z1[at - d.len()]);
    } else {
        let at = (d.len() + n1.len()) as int;
        assert(h1[at] == paths::SEPARATOR);
        assert(h2[at] == z2[at - d.len()]);
    }
    paths::lemma_text_injective(sanitized(p1), sanitized(p2));
    paths::lemma_text_injective(text::decimal(t1.z as nat), text::decimal(t2.z as nat));
    paths::lemma_text_injective(text::decimal(t1.x as nat), text::decimal(t2.x as nat));
    paths::lemma_text_injective(
        text::decimal(t1.y as nat) + ".png"@,
        text::decimal(t2.y as nat) + ".png"@,
    );
    text::lemma_decimal_injective(t1.z as nat, t2.z as nat);
    text::lemma_decimal_injective(t1.x as nat, t2.x as nat);
    let a = text::decimal(t1.y as nat);
    let b = text::decimal(t2.y as nat);
    assert(a.len() == b.len());
    assert(a =~= (a + ".png"@).take(a.len() as int));
    assert(b =~= (b + ".png"@).take(b.len() as int));
    text::lemma_decimal_injective(t1.y as nat, t2.y as nat);
}

/// The parts of a tile's path hold no separator, and its numbers are not
/// empty.
proof fn lemma_tile_parts(p: Seq<char>, t: TileId)
    ensures
        paths::one_component(encode_utf8(sanitized(p))),
        paths::one_component(encode_utf8(text::decimal(t.z as nat))),
        paths::one_component(encode_utf8(text::decimal(t.x as nat))),
        paths::one_component(encode_utf8(text::decimal(t.y as nat) + ".png"@)),
        encode_utf8(text::decimal(t.z as nat)).len() > 0,
        encode_utf8(text::decimal(t.x as nat)).len() > 0,
        encode_utf8(text::decimal(t.y as nat) + ".png"@).len() > 0,
{
    reveal_strlit(".png");
    law_sanitized_is_safe(p);
    text::lemma_decimal_digits(t.z as nat);
    text::lemma_decimal_digits(t.x as nat);
    text::lemma_decimal_digits(t.y as nat);
    let y_part = text::decimal(t.y as nat) + ".png"@;
    assert forall|i: int| 0 <= i < y_part.len() implies #[trigger] y_part[i] != '/' by {
        if i < text::decimal(t.y as nat).len() {
            assert(text::is_digit(text::decimal(t.y as nat)[i]));
        }
    }
    paths::lemma_text_is_one_component(sanitized(p));
    paths::lemma_text_is_one_component(text::decimal(t.z as nat));
    paths::lemma_text_is_one_component(text::decimal(t.x as nat));
    paths::lemma_text_is_one_component(y_part);
    paths::lemma_text_not_empty(text::decimal(t.z as nat));
    paths::lemma_text_not_empty(text::decimal(t.x as nat));
    paths::lemma_text_not_empty(y_part);
}

/// What is stored for a tile is found again, and what is stored for any other
/// tile of the same cache stays as it is. `disk` is what the files hold.
pub proof fn law_put_then_get(
    disk: Map<Seq<u8>, Seq<u8>>,
    dir: Seq<u8>,
    provider: Seq<char>,
    tile: TileId,
    bytes: Seq<u8>,
    other_provider: Seq<char>,
    other: TileId,
)
    ensures
        ({
            let after = disk.insert(tile_file(dir, provider, tile), bytes);
            &&& after.contains_key(tile_file(dir, provider, tile))
            &&& after[tile_file(dir, provider, tile)] == bytes
            &&& other != tile || sanitized(other_provider) != sanitized(provider) ==> {
                let file = tile_file(dir, other_provider, other);
                &&& after.contains_key(file) == disk.contains_key(file)
                &&& disk.contains_key(file) ==> after[file] == disk[file]
            }
        }),
{
    if tile_file(dir, provider, tile) == tile_file(dir, other_provider, other) {
        law_tile_files_are_distinct(dir, provider, tile, other_provider, other);
    }
}

/// Caches in different directories share no file, so that a change of the
/// directory leaves what was cached before untouched. Directories are the
/// same if they are but for a separator at the end.
pub proof fn law_directories_are_separate(
    dir1: Seq<u8>,
    p1: Seq<char>,
    t1: TileId,
    dir2: Seq<u8>,
    p2: Seq<char>,
    t2: TileId,
)
    requires
        p1.len() > 0,
        p2.len() > 0,
        tile_file(dir1, p1, t1) == tile_file(dir2, p2, t2),
    ensures
        opened(dir1) == opened(dir2),
{
    lemma_tile_parts(p1, t1);
    lemma_tile_parts(p2, t2);
    paths::lemma_text_not_empty(sanitized(p1));
    paths::lemma_text_not_empty(sanitized(p2));
    let n1 = encode_utf8(sanitized(p1));
    let z1 = encode_utf8(text::decimal(t1.z as nat));
    let x1 = encode_utf8(text::decimal(t1.x as nat));
    let y1 = encode_utf8(text::decimal(t1.y as nat) + ".png"@);
    let n2 = encode_utf8(sanitized(p2));
    let z2 = encode_utf8(text::decimal(t2.z as nat));
    let x2 = encode_utf8(text::decimal(t2.x as nat));
    let y2 = encode_utf8(text::decimal(t2.y as nat) + ".png"@);
    let h1 = lemma_tile_file_shape(dir1, n1, z1, x1, y1);
    let h2 = lemma_tile_file_shape(dir2, n2, z2, x2, y2);
    paths::lemma_last_component(
        h1.push(paths::SEPARATOR) + x1,
        y1,
        h2.push(paths::SEPARATOR) + x2,
        y2,
    );
    paths::lemma_last_component(h1, x1, h2, x2);
    let d1 = opened(dir1);
    let d2 = opened(dir2);
    paths::lemma_last_component(d1 + n1, z1, d2 + n2, z2);
    assert(d1 + n1 == d2 + n2);
    if d1.len() == 0 {
        if d2.len() > 0 {
            assert((d2 + n2)[d2.len() - 1] == paths::SEPARATOR);
            assert((d1 + n1)[d2.len() - 1] == n1[d2.len() - 1]);
        }
        assert(d1 =~= d2);
    } else if d2.len() == 0 {
        assert((d1 + n1)[d1.len() - 1] == paths::SEPARATOR);
        assert((d2 + n2)[d1.len() - 1] == n2[d1.len() - 1]);
    } else {
        assert(d1 =~= d1.drop_last().push(paths::SEPARATOR));
        assert(d2 =~= d2.drop_last().push(paths::SEPARATOR));
        paths::lemma_last_component(d1.drop_last(), n1, d2.drop_last(), n2);
    }
}

/// A tile that was stored just now is read, under every policy.
pub proof fn law_new_tile_is_read(policy: PolicyModel, env: Environment)
    ensures
        read_decision(FileAge::Elapsed(0), limits_of(policy, env).max_age) == CacheRead::Fresh,
{
}

/// A tile is expired for a look-up exactly if a run of the limits would
/// delete it for its age.
pub proof fn law_get_agrees_with_sweep(file: CachedFile, max_age: Option<int>)
    ensures
        read_decision(FileAge::Elapsed(file.elapsed), max_age) == CacheRead::Expired <==> aged_out(
            file,
            max_age,
        ),
{
}

/// Under a policy of `d` days, a tile that was stored more than `d` days ago
/// has expired, for a look-up as for a run of the limits, and no other one
/// has. Under a policy of no days none ever has. A file that is not there is
/// not read; one without a modification time is.
pub proof fn law_tiles_expire_after_the_days_of_the_policy(
    policy: PolicyModel,
    env: Environment,
    e: u128,
    file: CachedFile,
)
    ensures
        ({
            let max_age = limits_of(policy, env).max_age;
            let nanos = policy.max_age_days * 86400 * 1_000_000_000;
            &&& read_decision(FileAge::Elapsed(e), max_age) is Expired <==> policy.max_age_days > 0
                && e > nanos
            &&& read_decision(FileAge::Elapsed(e), max_age) is Fresh <==> policy.max_age_days == 0
                || e <= nanos
            &&& aged_out(file, max_age) <==> policy.max_age_days > 0 && file.elapsed > nanos
            &&& read_decision(FileAge::Missing, max_age) is Absent
            &&& read_decision(FileAge::Unknown, max_age) is Fresh
        }),
{
}

/// Under a policy of `n` megabytes, tiles are evicted for their size exactly
/// while the cache holds more than `n` times 1024 times 1024 bytes and one is
/// left to try; under a policy of no megabytes, never. The limit in bytes
/// that does not fit in a counter is the largest one that does.
pub proof fn law_tiles_are_evicted_above_the_megabytes_of_the_policy(
    policy: PolicyModel,
    env: Environment,
    m: SweepModel,
)
    requires
        0 <= m.total <= u64::MAX,
        m.max_size == limits_of(policy, env).max_size,
    ensures
        wants_removal(m) <==> policy.max_size_mb > 0 && m.total > policy.max_size_mb * 1024 * 1024
            && m.tried < m.order.len(),
        policy.max_size_mb * 1024 * 1024 <= u64::MAX ==> m.max_size == policy.max_size_mb * 1024
            * 1024,
        policy.max_size_mb * 1024 * 1024 > u64::MAX ==> m.max_size == u64::MAX,
{
}

/// Whether the age limit of a policy fits in a counter of seconds.
pub proof fn law_countable_ages(policy: PolicyModel)
    ensures
        countable_age(policy) <==> policy.max_age_days * 86400 <= 0xffff_ffff_ffff_ffff,
{
}

/// A directory that a policy names is where the cache lies, with a leading
/// `~/` resolved. One that names none has the cache lie in `waltzgps` below
/// the XDG cache directory, which is `.cache` in the home directory unless it
/// is set.
pub proof fn law_cache_lies_where_the_policy_says(
    policy: PolicyModel,
    env: Environment,
    named: Seq<char>,
    base: Seq<u8>,
)
    requires
        paths::is_plain(base),
    ensures
        ({
            let dir = limits_of(policy, env).dir;
            let path = encode_utf8(named);
            let home = paths::path_view(env.home);
            let xdg = paths::path_view(env.xdg_cache_home);
            &&& policy.directory == Some(named) && !(path.len() >= 2 && path[0] == 126 && path[1]
                == 47) ==> dir == path
            &&& policy.directory == Some(named) && env.home is None ==> dir == path
            &&& policy.directory == Some(named) && home == Some(base) && path.len() >= 2 && path[0]
                == 126 && path[1] == 47 && (path.len() == 2 || path[2] != 47) ==> dir == base
                + seq![47u8] + path.skip(2)
            &&& policy.directory is None && xdg == Some(base) ==> dir == base + seq![47u8]
                + encode_utf8("waltzgps"@)
            &&& policy.directory is None && (xdg is None || xdg == Some(Seq::<u8>::empty())) && home
                == Some(base) ==> dir == base + seq![47u8] + encode_utf8(".cache/waltzgps"@)
        }),
{
    let path = encode_utf8(named);
    if path.len() >= 2 && path[0] == 126 && path[1] == 47 {
        assert(seq![126u8, 47u8] + path.skip(2) =~= path);
        paths::law_tilde_stands_for_the_home_directory(base, path.skip(2), path);
    } else {
        paths::law_tilde_stands_for_the_home_directory(
            paths::path_view(env.home)->0,
            path.skip(2),
            path,
        );
    }
    reveal_strlit("waltzgps");
    reveal_strlit(".cache");
    reveal_strlit(".cache/waltzgps");
    is_ascii_chars_encode_utf8("waltzgps"@);
    is_ascii_chars_encode_utf8(".cache"@);
    is_ascii_chars_encode_utf8(".cache/waltzgps"@);
    let name = encode_utf8("waltzgps"@);
    let hidden = encode_utf8(".cache"@);
    paths::law_base_directory(base, paths::path_view(env.home), base, hidden);
    paths::law_join_puts_one_slash_between(base, name);
    let home_cache = base + seq![47u8] + hidden;
    assert(home_cache[home_cache.len() - 1] == hidden[hidden.len() - 1]);
    paths::law_join_puts_one_slash_between(home_cache, name);
    assert(encode_utf8(".cache/waltzgps"@) =~= hidden + seq![47u8] + name);
    assert(base + seq![47u8] + (hidden + seq![47u8] + name) =~= home_cache + seq![47u8] + name);
}

/// A character of a provider's name stays in the name of its directory if it
/// is a letter or a digit, a hyphen or an underscore; an underscore takes the
/// place of any other.
pub proof fn law_names_keep_their_letters(name: Seq<char>, i: int)
    requires
        0 <= i < name.len(),
    ensures
        sanitized(name).len() == name.len(),
        ({
            let c = name[i];
            let kept = if c <= '\u{7f}' {
                'a' <= c <= 'z' || 'A' <= c <= 'Z' || '0' <= c <= '9' || c == '-' || c == '_'
            } else {
                alphanumeric(c)
            };
            &&& kept ==> sanitized(name)[i] == c
            &&& !kept ==> sanitized(name)[i] == '_'
        }),
{
}

/// The file of a tile lies in the cache directory, under the name of the
/// provider, the zoom level and the column, and is called by the row, with
/// slashes between them.
pub proof fn law_tile_file_path(dir: Seq<u8>, provider: Seq<char>, tile: TileId)
    requires
        paths::is_plain(dir),
        provider.len() > 0,
    ensures
        ({
            let slash = seq![47u8];
            tile_file(dir, provider, tile) == dir + slash + encode_utf8(sanitized(provider)) + slash
                + encode_utf8(text::decimal(tile.z as nat)) + slash + encode_utf8(
                text::decimal(tile.x as nat),
            ) + slash + encode_utf8(text::decimal(tile.y as nat) + ".png"@)
        }),
{
    let slash = seq![47u8];
    let name = encode_utf8(sanitized(provider));
    let z = encode_utf8(text::decimal(tile.z as nat));
    let x = encode_utf8(text::decimal(tile.x as nat));
    let y = encode_utf8(text::decimal(tile.y as nat) + ".png"@);
    lemma_tile_parts(provider, tile);
    paths::lemma_text_not_empty(sanitized(provider));
    let a = dir + slash + name;
    let b = a + slash + z;
    let c = b + slash + x;
    assert(a[a.len() - 1] == name[name.len() - 1]);
    assert(b[b.len() - 1] == z[z.len() - 1]);
    assert(c[c.len() - 1] == x[x.len() - 1]);
    paths::law_join_puts_one_slash_between(dir, name);
    paths::law_join_puts_one_slash_between(a, z);
    paths::law_join_puts_one_slash_between(b, x);
    paths::law_join_puts_one_slash_between(c, y);
}

/// A run of the limits sorts every file into one of two lists. One that is
/// older than the days of the policy goes for its age; the others are in line
/// for eviction, the one that was modified first at the head, and among those
/// modified at once the one found first. No file is listed twice.
pub proof fn law_every_file_is_listed_once(
    policy: PolicyModel,
    env: Environment,
    files: Seq<CachedFile>,
    expired: Seq<usize>,
    order: Seq<usize>,
    f: usize,
    i: int,
    j: int,
)
    requires
        lists_expired(files, limits_of(policy, env).max_age, expired),
        lists_by_age(files, limits_of(policy, env).max_age, order),
        f < files.len(),
    ensures
        ({
            let too_old = policy.max_age_days > 0 && files[f as int].elapsed > policy.max_age_days
                * 86400 * 1_000_000_000;
            &&& expired.contains(f) <==> too_old
            &&& order.contains(f) <==> !too_old
        }),
        0 <= i < expired.len() ==> expired[i] < files.len(),
        0 <= i < j < expired.len() ==> expired[i] < expired[j],
        0 <= i < order.len() ==> order[i] < files.len(),
        0 <= i < j < order.len() ==> order[i] != order[j] && files[order[i] as int].modified
            <= files[order[j] as int].modified,
        0 <= i < j < order.len() && files[order[i] as int].modified
            == files[order[j] as int].modified ==> order[i] < order[j],
{
    if expired.contains(f) {
        let k = choose|k: int| 0 <= k < expired.len() && expired[k] == f;
        assert(expired[k] == f);
    }
    if order.contains(f) {
        let k = choose|k: int| 0 <= k < order.len() && order[k] == f;
        assert(order[k] == f);
    }
    if 0 <= i < j < order.len() {
        assert(evicted_before(files, order[i], order[j]));
    }
}

/// The bytes of a cache before an eviction are those of the files that are not
/// older than the days of the policy, each counted once.
pub proof fn law_bytes_are_those_of_the_files_that_stay(
    policy: PolicyModel,
    env: Environment,
    files: Seq<CachedFile>,
    n: int,
)
    requires
        0 <= n < files.len(),
    ensures
        ({
            let max_age = limits_of(policy, env).max_age;
            let goes = policy.max_age_days > 0 && files[n].elapsed > policy.max_age_days * 86400
                * 1_000_000_000;
            &&& kept_bytes(files, max_age, 0) == 0
            &&& goes ==> kept_bytes(files, max_age, n + 1) == kept_bytes(files, max_age, n)
            &&& !goes ==> kept_bytes(files, max_age, n + 1) == kept_bytes(files, max_age, n)
                + files[n].size
        }),
{
}

/// The bytes from a position on are those of the file there and of the files
/// behind it.
pub proof fn law_bytes_add_up(sizes: Seq<u64>, i: int)
    ensures
        0 <= i < sizes.len() ==> bytes_from(sizes, i) == sizes[i] + bytes_from(sizes, i + 1),
        i >= sizes.len() ==> bytes_from(sizes, i) == 0,
{
}

/// A file that was removed takes its bytes with it; one that could not be
/// removed leaves them. Either way the next file is another one, and the
/// lists and the limit stay as they were.
pub proof fn law_removal_takes_the_bytes_of_the_file(m: SweepModel)
    requires
        0 <= m.tried < m.sizes.len(),
        0 <= m.total,
    ensures
        m.sizes[m.tried] <= m.total ==> after_removal(m, true).total + m.sizes[m.tried] == m.total,
        m.sizes[m.tried] > m.total ==> after_removal(m, true).total == 0,
        after_removal(m, false).total == m.total,
        forall|removed: bool|
            ({
                let after = #[trigger] after_removal(m, removed);
                &&& after.tried == m.tried + 1
                &&& after.expired == m.expired
                &&& after.order == m.order
                &&& after.sizes == m.sizes
                &&& after.max_size == m.max_size
            }),
{
}

/// An eviction changes neither the lists nor the limit, and tries the files in
/// their order.
pub proof fn law_sweep_keeps_its_lists(m: SweepModel)
    requires
        0 <= m.tried <= m.order.len(),
    ensures
        swept(m).expired == m.expired,
        swept(m).order == m.order,
        swept(m).sizes == m.sizes,
        swept(m).max_size == m.max_size,
        m.tried <= swept(m).tried <= m.order.len(),
        m.max_size <= 0 || swept(m).total <= m.max_size || swept(m).tried == m.order.len(),
    decreases m.order.len() - m.tried,
{
    if wants_removal(m) {
        law_sweep_keeps_its_lists(after_removal(m, true));
    }
}

/// The file of a tile is reached from the cache directory step by step,
/// however the directory is written: through the name of the provider, the
/// zoom level and the column to the row. A slash at the end of the directory
/// makes no difference.
pub proof fn law_tile_file_is_reached_from_the_directory(
    dir: Seq<u8>,
    provider: Seq<char>,
    tile: TileId,
)
    ensures
        ({
            let by_name = paths::joined(dir, encode_utf8(sanitized(provider)));
            let by_zoom = paths::joined(by_name, encode_utf8(text::decimal(tile.z as nat)));
            let by_column = paths::joined(by_zoom, encode_utf8(text::decimal(tile.x as nat)));
            tile_file(dir, provider, tile) == paths::joined(
                by_column,
                encode_utf8(text::decimal(tile.y as nat) + ".png"@),
            )
        }),
        paths::is_plain(dir) ==> tile_file(dir + seq![47u8], provider, tile) == tile_file(
            dir,
            provider,
            tile,
        ),
{
    lemma_tile_parts(provider, tile);
    paths::law_join_puts_one_slash_between(dir, encode_utf8(sanitized(provider)));
}

/// However the directories of the user are written, the cache lies where the
/// policy's directory leads from the home directory or, without one, in
/// `waltzgps` as it is reached from the XDG cache directory.
pub proof fn law_cache_is_reached_from_the_user_directories(policy: PolicyModel, env: Environment)
    ensures
        policy.directory matches Some(d) ==> limits_of(policy, env).dir == paths::tilde_expanded(
            encode_utf8(d),
            paths::path_view(env.home),
        ),
        policy.directory is None ==> limits_of(policy, env).dir == paths::joined(
            paths::base_directory(
                paths::path_view(env.xdg_cache_home),
                paths::path_view(env.home),
                encode_utf8(".cache"@),
            ),
            encode_utf8("waltzgps"@),
        ),
{
}

} // verus!
