//! File-system paths as the kernel sees them: rows of bytes.

use vstd::prelude::*;
use vstd::utf8::*;
#[allow(unused_imports)]
use vstd::string::*;

verus! {

/// The byte that separates the components of a path.
pub const SEPARATOR: u8 = 47;

/// A path. Its bytes need not be valid UTF-8.
#[derive(Debug, PartialEq, Eq)]
pub struct FsPath {
    pub bytes: Vec<u8>,
}

impl View for FsPath {
    type V = Seq<u8>;

    open spec fn view(&self) -> Seq<u8> {
        self.bytes@
    }
}

/// The path reached from `base` by `part`: `part` itself if it is absolute,
/// otherwise `part` behind `base`, with one separator between them unless
/// `base` is empty or ends in one.
pub open spec fn joined(base: Seq<u8>, part: Seq<u8>) -> Seq<u8> {
    if part.len() > 0 && part[0] == SEPARATOR {
        part
    } else if base.len() == 0 || base.last() == SEPARATOR {
        base + part
    } else {
        base.push(SEPARATOR) + part
    }
}

/// Appends a row of bytes.
fn append_bytes(v: &mut Vec<u8>, more: &[u8])
    ensures
        final(v)@ == old(v)@ + more@,
{
    let ghost before = v@;
    let mut i: usize = 0;
    while i < more.len()
        invariant
            i <= more@.len(),
            v@ == before + more@.take(i as int),
        decreases more@.len() - i,
    {
        proof {
            assert(more@.take(i + 1) =~= more@.take(i as int).push(more@[i as int]));
        }
        v.push(more[i]);
        i += 1;
    }
    proof {
        assert(more@.take(i as int) =~= more@);
    }
}

impl Clone for FsPath {
    fn clone(&self) -> (r: Self)
        ensures
            r@ == self@,
    {
        let mut bytes: Vec<u8> = Vec::new();
        append_bytes(&mut bytes, self.bytes.as_slice());
        FsPath { bytes }
    }
}

impl FsPath {
    /// The path written as `text`.
    pub fn from_text(text: &str) -> (r: FsPath)
        ensures
            r@ == encode_utf8(text@),
    {
        let mut bytes: Vec<u8> = Vec::new();
        append_bytes(&mut bytes, text.as_bytes());
        FsPath { bytes }
    }

    /// The path reached from this one by `part`.
    pub fn join_bytes(&self, part: &[u8]) -> (r: FsPath)
        ensures
            r@ == joined(self@, part@),
    {
        let mut bytes: Vec<u8> = Vec::new();
        if part.len() > 0 && part[0] == SEPARATOR {
            append_bytes(&mut bytes, part);
            proof {
                assert(bytes@ =~= part@);
            }
        } else {
            append_bytes(&mut bytes, self.bytes.as_slice());
            if bytes.len() > 0 && bytes[bytes.len() - 1] != SEPARATOR {
                bytes.push(SEPARATOR);
            }
            append_bytes(&mut bytes, part);
        }
        FsPath { bytes }
    }

    /// The path reached from this one by the component `part`.
    pub fn join(&self, part: &str) -> (r: FsPath)
        ensures
            r@ == joined(self@, encode_utf8(part@)),
    {
        self.join_bytes(part.as_bytes())
    }
}

/// The environment variables that name the user's directories; `None` where
/// the variable is not set.
pub struct Environment {
    pub home: Option<FsPath>,
    pub xdg_config_home: Option<FsPath>,
    pub xdg_cache_home: Option<FsPath>,
    pub xdg_state_home: Option<FsPath>,
}

/// What an optional path holds, if it is there.
pub open spec fn path_view(p: Option<FsPath>) -> Option<Seq<u8>> {
    match p {
        Some(path) => Some(path@),
        None => None,
    }
}

/// The directory an XDG variable names: its value if it is set and not
/// empty, otherwise `fallback` below the home directory, which is `.` where
/// there is none.
pub open spec fn base_directory(
    value: Option<Seq<u8>>,
    home: Option<Seq<u8>>,
    fallback: Seq<u8>,
) -> Seq<u8> {
    if value is Some && value->0.len() > 0 {
        value->0
    } else if home is Some {
        joined(home->0, fallback)
    } else {
        joined(encode_utf8("."@), fallback)
    }
}

/// The directory that an XDG variable with the given value stands for.
pub fn base_dir(value: &Option<FsPath>, home: &Option<FsPath>, fallback: &str) -> (r: FsPath)
    ensures
        r@ == base_directory(path_view(*value), path_view(*home), encode_utf8(fallback@)),
{
    if let Some(path) = value {
        if path.bytes.len() > 0 {
            return path.clone();
        }
    }
    match home {
        Some(path) => path.join(fallback),
        None => FsPath::from_text(".").join(fallback),
    }
}

/// `path` with a leading `~/` resolved against the home directory, if there
/// is one.
pub open spec fn tilde_expanded(path: Seq<u8>, home: Option<Seq<u8>>) -> Seq<u8> {
    if path.len() >= 2 && path[0] == 126 && path[1] == SEPARATOR && home is Some {
        joined(home->0, path.skip(2))
    } else {
        path
    }
}

/// Expands a leading `~/` to the user's home directory.
pub fn expand_tilde(path: &str, home: &Option<FsPath>) -> (r: FsPath)
    ensures
        r@ == tilde_expanded(encode_utf8(path@), path_view(*home)),
{
    let whole = FsPath::from_text(path);
    if whole.bytes.len() >= 2 && whole.bytes[0] == 126 && whole.bytes[1] == SEPARATOR {
        if let Some(h) = home {
            let mut rest: Vec<u8> = Vec::new();
            let mut i: usize = 2;
            while i < whole.bytes.len()
                invariant
                    2 <= i <= whole@.len(),
                    rest@ == whole@.subrange(2, i as int),
                decreases whole@.len() - i,
            {
                proof {
                    assert(whole@.subrange(2, i + 1) =~= whole@.subrange(2, i as int).push(
                        whole@[i as int],
                    ));
                }
                rest.push(whole.bytes[i]);
                i += 1;
            }
            proof {
                assert(whole@.subrange(2, i as int) =~= whole@.skip(2));
            }
            return h.join_bytes(rest.as_slice());
        }
    }
    whole
}

/// Whether no separator stands in a row of bytes.
pub open spec fn one_component(b: Seq<u8>) -> bool {
    forall|i: int| 0 <= i < b.len() ==> #[trigger] b[i] != SEPARATOR
}

/// Text without a slash is written without a separator.
pub proof fn lemma_text_is_one_component(chars: Seq<char>)
    requires
        forall|i: int| 0 <= i < chars.len() ==> #[trigger] chars[i] != '/',
    ensures
        one_component(encode_utf8(chars)),
    decreases chars.len(),
{
    if chars.len() > 0 {
        let c = chars[0] as u32;
        char_u32_cast(chars[0], c);
        assert(leading_byte_width_1(c) != 47 || !has_width_1_encoding(c)) by (bit_vector)
            requires
                c != 47,
        ;
        assert(leading_byte_width_2(c) != 47 && leading_byte_width_3(c) != 47
            && leading_byte_width_4(c) != 47 && last_continuation_byte(c) != 47
            && second_last_continuation_byte(c) != 47 && third_last_continuation_byte(c) != 47)
            by (bit_vector);
        assert(one_component(encode_scalar(c)));
        lemma_text_is_one_component(chars.drop_first());
    }
}

/// Different texts are written with different bytes.
pub proof fn lemma_text_injective(a: Seq<char>, b: Seq<char>)
    requires
        encode_utf8(a) == encode_utf8(b),
    ensures
        a == b,
{
    encode_utf8_decode_utf8(a);
    encode_utf8_decode_utf8(b);
}

/// Text that is not empty is written with at least one byte.
pub proof fn lemma_text_not_empty(a: Seq<char>)
    ensures
        a.len() == 0 <==> encode_utf8(a).len() == 0,
{
}

/// A path splits at its last separator in one way only.
pub proof fn lemma_last_component(a: Seq<u8>, b: Seq<u8>, c: Seq<u8>, d: Seq<u8>)
    requires
        one_component(b),
        one_component(d),
        a.push(SEPARATOR) + b == c.push(SEPARATOR) + d,
    ensures
        a == c,
        b == d,
{
    let p = a.push(SEPARATOR) + b;
    let q = c.push(SEPARATOR) + d;
    assert(p.len() == a.len() + 1 + b.len());
    assert(q.len() == c.len() + 1 + d.len());
    assert(p[a.len() as int] == SEPARATOR);
    assert(q[c.len() as int] == SEPARATOR);
    if a.len() < c.len() {
        assert(p[c.len() as int] == b[c.len() - a.len() - 1]);
    } else if c.len() < a.len() {
        assert(q[a.len() as int] == d[a.len() - c.len() - 1]);
    }
    assert(a =~= p.take(a.len() as int));
    assert(c =~= q.take(c.len() as int));
    assert(b =~= p.skip((a.len() + 1) as int));
    assert(d =~= q.skip((c.len() + 1) as int));
}

/// Whether a path can be followed by a slash and a name: it is not empty and
/// does not end in a slash.
pub open spec fn is_plain(dir: Seq<u8>) -> bool {
    dir.len() > 0 && dir[dir.len() - 1] != 47
}

/// A relative path stands behind a directory with one slash between them,
/// whether or not the directory was written with one at its end. An absolute
/// path stays as it is, and behind nothing every path does.
pub proof fn law_join_puts_one_slash_between(dir: Seq<u8>, part: Seq<u8>)
    ensures
        part.len() > 0 && part[0] == 47 ==> joined(dir, part) == part && joined(
            dir + seq![47u8],
            part,
        ) == part,
        !(part.len() > 0 && part[0] == 47) ==> {
            &&& joined(dir + seq![47u8], part) == dir + seq![47u8] + part
            &&& is_plain(dir) ==> joined(dir, part) == dir + seq![47u8] + part
        },
        joined(Seq::empty(), part) == part,
{
    assert(Seq::<u8>::empty() + part =~= part);
    assert(dir.push(47u8) =~= dir + seq![47u8]);
}

/// A leading `~/` gives way to the home directory and a slash. What follows
/// it, and every other path, stays as it is.
pub proof fn law_tilde_stands_for_the_home_directory(home: Seq<u8>, rest: Seq<u8>, path: Seq<u8>)
    ensures
        is_plain(home) && !(rest.len() > 0 && rest[0] == 47) ==> tilde_expanded(
            seq![126u8, 47u8] + rest,
            Some(home),
        ) == home + seq![47u8] + rest,
        !(rest.len() > 0 && rest[0] == 47) ==> tilde_expanded(
            seq![126u8, 47u8] + rest,
            Some(home + seq![47u8]),
        ) == home + seq![47u8] + rest,
        rest.len() > 0 && rest[0] == 47 ==> tilde_expanded(
            seq![126u8, 47u8] + rest,
            Some(home),
        ) == rest,
        tilde_expanded(seq![126u8, 47u8] + rest, Some(home)) == joined(home, rest),
        path.len() < 2 || path[0] != 126 || path[1] != 47 ==> tilde_expanded(path, Some(home))
            == path,
        tilde_expanded(path, None) == path,
{
    assert((seq![126u8, 47u8] + rest).skip(2) =~= rest);
    law_join_puts_one_slash_between(home, rest);
}

/// An XDG variable stands for its value unless it is missing or empty; else
/// for a directory below the home directory, which is `.` where there is
/// none.
pub proof fn law_base_directory(
    value: Seq<u8>,
    home: Option<Seq<u8>>,
    h: Seq<u8>,
    fallback: Seq<u8>,
)
    requires
        is_plain(h),
        !(fallback.len() > 0 && fallback[0] == 47),
    ensures
        value.len() > 0 ==> base_directory(Some(value), home, fallback) == value,
        base_directory(None, Some(h), fallback) == h + seq![47u8] + fallback,
        base_directory(Some(Seq::empty()), Some(h), fallback) == h + seq![47u8] + fallback,
        base_directory(None, None, fallback) == seq![46u8, 47u8] + fallback,
        base_directory(Some(Seq::empty()), None, fallback) == seq![46u8, 47u8] + fallback,
{
    reveal_strlit(".");
    is_ascii_chars_encode_utf8("."@);
    let dot = encode_utf8("."@);
    assert(dot =~= seq![46u8]);
    law_join_puts_one_slash_between(h, fallback);
    law_join_puts_one_slash_between(dot, fallback);
    assert(dot + seq![47u8] =~= seq![46u8, 47u8]);
}

/// However the home directory is written, a directory below it is reached
/// from it, and only a variable that is missing or empty leads there.
pub proof fn law_base_directory_is_reached_from_home(
    value: Option<Seq<u8>>,
    home: Seq<u8>,
    fallback: Seq<u8>,
)
    ensures
        value is None || value->0 == Seq::<u8>::empty() ==> base_directory(
            value,
            Some(home),
            fallback,
        ) == joined(home, fallback) && base_directory(value, None, fallback) == joined(
            seq![46u8],
            fallback,
        ),
        value is Some && value->0 != Seq::<u8>::empty() ==> base_directory(
            value,
            Some(home),
            fallback,
        ) == value->0 && base_directory(value, None, fallback) == value->0,
{
    reveal_strlit(".");
    is_ascii_chars_encode_utf8("."@);
    assert(encode_utf8("."@) =~= seq![46u8]);
    if value is Some && value->0.len() == 0 {
        assert(value->0 =~= Seq::<u8>::empty());
    }
}

} // verus!
