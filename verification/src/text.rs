//! Operations on strings, each proved against a short definition over the
//! string's characters.

use vstd::prelude::*;

verus! {

/// `String::push`: appends one character to the end of the string.
pub assume_specification[ String::push ](s: &mut String, c: char)
    ensures
        final(s)@ == old(s)@.push(c),
;

/// The characters with the Unicode property `White_Space`.
pub open spec fn white_space(c: char) -> bool {
    ||| '\u{9}' <= c <= '\u{d}'
    ||| c == ' '
    ||| c == '\u{85}'
    ||| c == '\u{a0}'
    ||| c == '\u{1680}'
    ||| '\u{2000}' <= c <= '\u{200a}'
    ||| c == '\u{2028}'
    ||| c == '\u{2029}'
    ||| c == '\u{202f}'
    ||| c == '\u{205f}'
    ||| c == '\u{3000}'
}

/// Whether `c` is white space.
pub fn is_white_space(c: char) -> (r: bool)
    ensures
        r == white_space(c),
{
    ('\u{9}' <= c && c <= '\u{d}') || c == ' ' || c == '\u{85}' || c == '\u{a0}' || c == '\u{1680}'
        || ('\u{2000}' <= c && c <= '\u{200a}') || c == '\u{2028}' || c == '\u{2029}'
        || c == '\u{202f}' || c == '\u{205f}' || c == '\u{3000}'
}

/// `s` without its leading white space.
pub open spec fn trim_start(s: Seq<char>) -> Seq<char>
    decreases s.len(),
{
    if s.len() > 0 && white_space(s[0]) {
        trim_start(s.skip(1))
    } else {
        s
    }
}

/// `s` without its trailing white space.
pub open spec fn trim_end(s: Seq<char>) -> Seq<char>
    decreases s.len(),
{
    if s.len() > 0 && white_space(s.last()) {
        trim_end(s.drop_last())
    } else {
        s
    }
}

/// `s` without leading and trailing white space.
pub open spec fn trim(s: Seq<char>) -> Seq<char> {
    trim_end(trim_start(s))
}

/// Whether `s` neither begins nor ends with white space.
pub open spec fn is_trimmed(s: Seq<char>) -> bool {
    s.len() > 0 ==> !white_space(s[0]) && !white_space(s.last())
}

/// Removing trailing white space keeps the beginning, as long as it is not
/// white space itself.
proof fn lemma_trim_end(s: Seq<char>)
    ensures
        trim_end(s).len() <= s.len(),
        trim_end(s) == s.take(trim_end(s).len() as int),
        trim_end(s).len() > 0 ==> !white_space(trim_end(s).last()),
    decreases s.len(),
{
    if s.len() > 0 && white_space(s.last()) {
        let t = trim_end(s.drop_last());
        lemma_trim_end(s.drop_last());
        assert(s.drop_last().take(t.len() as int) =~= s.take(t.len() as int));
    } else {
        assert(s.take(s.len() as int) =~= s);
    }
}

/// After its leading white space is gone, a string begins with something
/// else.
proof fn lemma_trim_start(s: Seq<char>)
    ensures
        trim_start(s).len() > 0 ==> !white_space(trim_start(s)[0]),
    decreases s.len(),
{
    if s.len() > 0 && white_space(s[0]) {
        lemma_trim_start(s.skip(1));
    }
}

/// A trimmed string has no white space around it, and trimming it again
/// changes nothing.
pub proof fn law_trim_is_idempotent(s: Seq<char>)
    ensures
        is_trimmed(trim(s)),
        trim(trim(s)) == trim(s),
{
    lemma_trim_start(s);
    lemma_trim_end(trim_start(s));
    lemma_trimmed_unchanged(trim(s));
}

/// A string without white space around it is its own trimmed form.
pub proof fn lemma_trimmed_unchanged(s: Seq<char>)
    requires
        is_trimmed(s),
    ensures
        trim(s) == s,
{
}

/// The characters of `s`, one by one.
pub fn chars_of(s: &str) -> (v: Vec<char>)
    ensures
        v@ == s@,
{
    let mut v: Vec<char> = Vec::new();
    for c in it: s.chars()
        invariant
            v@ == s@.take(it.index() as int),
            it.seq() == s@,
    {
        proof {
            assert(s@.take(it.index() as int + 1) =~= s@.take(it.index() as int).push(
                s@[it.index() as int],
            ));
        }
        v.push(c);
    }
    proof {
        assert(s@.take(s@.len() as int) =~= s@);
    }
    v
}

/// The string made of `v[from..to]`.
pub fn string_of(v: &Vec<char>, from: usize, to: usize) -> (s: String)
    requires
        from <= to <= v@.len(),
    ensures
        s@ == v@.subrange(from as int, to as int),
{
    let mut s = String::new();
    let mut i: usize = from;
    while i < to
        invariant
            from <= i <= to <= v@.len(),
            s@ == v@.subrange(from as int, i as int),
        decreases to - i,
    {
        s.push(v[i]);
        proof {
            assert(v@.subrange(from as int, i + 1) =~= v@.subrange(from as int, i as int).push(
                v@[i as int],
            ));
        }
        i += 1;
    }
    s
}

/// Removes leading and trailing white space.
pub fn trimmed(s: &str) -> (r: String)
    ensures
        r@ == trim(s@),
{
    let v = chars_of(s);
    let mut from: usize = 0;
    proof {
        assert(v@.skip(0) =~= v@);
    }
    while from < v.len() && is_white_space(v[from])
        invariant
            from <= v@.len(),
            v@ == s@,
            trim_start(s@) == trim_start(v@.skip(from as int)),
        decreases v@.len() - from,
    {
        proof {
            assert(v@.skip(from as int).skip(1) =~= v@.skip(from + 1));
        }
        from += 1;
    }
    let ghost body = v@.skip(from as int);
    proof {
        assert(trim_start(s@) == body);
    }
    let mut to: usize = v.len();
    proof {
        assert(v@.subrange(from as int, to as int) =~= body);
    }
    while from < to && is_white_space(v[to - 1])
        invariant
            from <= to <= v@.len(),
            trim_end(body) == trim_end(v@.subrange(from as int, to as int)),
        decreases to,
    {
        proof {
            assert(v@.subrange(from as int, to as int).drop_last() =~= v@.subrange(
                from as int,
                to - 1,
            ));
        }
        to -= 1;
    }
    string_of(&v, from, to)
}

/// `s` with every occurrence of `pat` replaced by `rep`, found from left to
/// right without overlap. A replacement is not searched again.
pub open spec fn replace(s: Seq<char>, pat: Seq<char>, rep: Seq<char>) -> Seq<char>
    recommends
        pat.len() > 0,
    decreases s.len(),
{
    if pat.len() == 0 || s.len() < pat.len() {
        s
    } else if pat.is_prefix_of(s) {
        rep + replace(s.skip(pat.len() as int), pat, rep)
    } else {
        seq![s[0]] + replace(s.skip(1), pat, rep)
    }
}

/// Whether `pat` stands somewhere in `s`.
pub open spec fn occurs(s: Seq<char>, pat: Seq<char>) -> bool {
    exists|i: int| stands_at(s, pat, i)
}

/// Whether `pat` stands in `s` at position `i`.
pub open spec fn stands_at(s: Seq<char>, pat: Seq<char>, i: int) -> bool {
    &&& 0 <= i
    &&& i + pat.len() <= s.len()
    &&& forall|k: int| 0 <= k < pat.len() ==> s[i + k] == #[trigger] pat[k]
}

/// Whether `s` is a row of decimal digits.
pub open spec fn all_digits(s: Seq<char>) -> bool {
    forall|i: int| 0 <= i < s.len() ==> is_digit(#[trigger] s[i])
}

/// Whether no digit stands in `s`.
pub open spec fn no_digits(s: Seq<char>) -> bool {
    forall|i: int| 0 <= i < s.len() ==> !is_digit(#[trigger] s[i])
}

/// A replacement by digits leaves alone what comes before the first digit of
/// the result.
proof fn lemma_replace_keeps_head(s: Seq<char>, pat: Seq<char>, rep: Seq<char>, k: int)
    requires
        rep.len() > 0,
        all_digits(rep),
        0 <= k <= replace(s, pat, rep).len(),
        no_digits(replace(s, pat, rep).take(k)),
    ensures
        k <= s.len(),
        replace(s, pat, rep).take(k) == s.take(k),
    decreases s.len(),
{
    let r = replace(s, pat, rep);
    if pat.len() == 0 || s.len() < pat.len() || k == 0 {
        assert(r.take(0) =~= s.take(0));
    } else if pat.is_prefix_of(s) {
        assert(r.take(k)[0] == rep[0]);
    } else {
        let tail = replace(s.skip(1), pat, rep);
        assert(forall|i: int| 0 <= i < k - 1 ==> tail[i] == #[trigger] r[i + 1]);
        assert forall|i: int| 0 <= i < k - 1 implies !is_digit(#[trigger] tail.take(k - 1)[i]) by {
            assert(r.take(k)[i + 1] == tail[i]);
        }
        lemma_replace_keeps_head(s.skip(1), pat, rep, k - 1);
        assert forall|i: int| 0 <= i < k implies r.take(k)[i] == s.take(k)[i] by {
            if i > 0 {
                assert(tail.take(k - 1)[i - 1] == s.skip(1).take(k - 1)[i - 1]);
            }
        }
        assert(r.take(k) =~= s.take(k));
    }
}

/// What stands in the result of a replacement by digits, and holds no digit
/// itself, stood in the string before.
pub proof fn lemma_replace_adds_no_other(
    s: Seq<char>,
    pat: Seq<char>,
    rep: Seq<char>,
    other: Seq<char>,
)
    requires
        rep.len() > 0,
        all_digits(rep),
        other.len() > 0,
        no_digits(other),
        !occurs(s, other),
    ensures
        !occurs(replace(s, pat, rep), other),
    decreases s.len(),
{
    let r = replace(s, pat, rep);
    if occurs(r, other) {
        let i = choose|i: int| stands_at(r, other, i);
        assert(r[i + 0] == other[0]);
        if pat.len() == 0 || s.len() < pat.len() {
        } else if pat.is_prefix_of(s) {
            let tail = s.skip(pat.len() as int);
            let rest = replace(tail, pat, rep);
            if i < rep.len() {
                assert(r[i] == rep[i]);
            } else {
                assert(stands_at(rest, other, i - rep.len())) by {
                    assert forall|k: int| 0 <= k < other.len() implies rest[i - rep.len() + k]
                        == #[trigger] other[k] by {
                        assert(r[i + k] == other[k]);
                    }
                }
                lemma_occurs_in_tail(s, pat.len() as int, other);
                lemma_replace_adds_no_other(tail, pat, rep, other);
            }
        } else if i > 0 {
            let rest = replace(s.skip(1), pat, rep);
            assert(stands_at(rest, other, i - 1)) by {
                assert forall|k: int| 0 <= k < other.len() implies rest[i - 1 + k]
                    == #[trigger] other[k] by {
                    assert(r[i + k] == other[k]);
                }
            }
            lemma_occurs_in_tail(s, 1, other);
            lemma_replace_adds_no_other(s.skip(1), pat, rep, other);
        } else {
            lemma_head_of_replacement(s, pat, rep, other);
            assert(stands_at(s, other, 0));
        }
    }
}

/// What begins the result of a replacement by digits, and holds no digit
/// itself, began the string before.
proof fn lemma_head_of_replacement(s: Seq<char>, pat: Seq<char>, rep: Seq<char>, head: Seq<char>)
    requires
        rep.len() > 0,
        all_digits(rep),
        no_digits(head),
        stands_at(replace(s, pat, rep), head, 0),
    ensures
        stands_at(s, head, 0),
{
    let r = replace(s, pat, rep);
    let k = head.len() as int;
    assert forall|j: int| 0 <= j < k implies r.take(k)[j] == head[j] by {
        assert(r[0 + j] == head[j]);
    }
    assert(r.take(k) =~= head);
    lemma_replace_keeps_head(s, pat, rep, k);
    assert forall|j: int| 0 <= j < k implies s[0 + j] == #[trigger] head[j] by {
        assert(s.take(k)[j] == head[j]);
    }
}

/// What does not stand in a string does not stand in its tail.
proof fn lemma_occurs_in_tail(s: Seq<char>, n: int, pat: Seq<char>)
    requires
        0 <= n <= s.len(),
        !occurs(s, pat),
    ensures
        !occurs(s.skip(n), pat),
{
    if occurs(s.skip(n), pat) {
        let i = choose|i: int| stands_at(s.skip(n), pat, i);
        assert(stands_at(s, pat, n + i)) by {
            assert forall|k: int| 0 <= k < pat.len() implies s[n + i + k] == #[trigger] pat[k] by {
                assert(s.skip(n)[i + k] == pat[k]);
            }
        }
    }
}

/// A pattern without digits is gone once it has been replaced by digits.
pub proof fn lemma_replace_removes(s: Seq<char>, pat: Seq<char>, rep: Seq<char>)
    requires
        rep.len() > 0,
        all_digits(rep),
        pat.len() > 0,
        no_digits(pat),
    ensures
        !occurs(replace(s, pat, rep), pat),
    decreases s.len(),
{
    let r = replace(s, pat, rep);
    if occurs(r, pat) {
        let i = choose|i: int| stands_at(r, pat, i);
        assert(r[i + 0] == pat[0]);
        if s.len() < pat.len() {
        } else if pat.is_prefix_of(s) {
            let rest = replace(s.skip(pat.len() as int), pat, rep);
            if i < rep.len() {
                assert(r[i] == rep[i]);
            } else {
                assert(stands_at(rest, pat, i - rep.len())) by {
                    assert forall|k: int| 0 <= k < pat.len() implies rest[i - rep.len() + k]
                        == #[trigger] pat[k] by {
                        assert(r[i + k] == pat[k]);
                    }
                }
                lemma_replace_removes(s.skip(pat.len() as int), pat, rep);
            }
        } else if i > 0 {
            let rest = replace(s.skip(1), pat, rep);
            assert(stands_at(rest, pat, i - 1)) by {
                assert forall|k: int| 0 <= k < pat.len() implies rest[i - 1 + k]
                    == #[trigger] pat[k] by {
                    assert(r[i + k] == pat[k]);
                }
            }
            lemma_replace_removes(s.skip(1), pat, rep);
        } else {
            lemma_head_of_replacement(s, pat, rep, pat);
            assert forall|k: int| 0 <= k < pat.len() implies pat[k] == s.take(pat.len() as int)[k] by {
                assert(s[0 + k] == pat[k]);
            }
            assert(s.take(pat.len() as int) =~= pat);
        }
    }
}

/// Replacing what does not occur changes nothing.
pub proof fn lemma_replace_nothing(s: Seq<char>, pat: Seq<char>, rep: Seq<char>)
    requires
        !occurs(s, pat),
    ensures
        replace(s, pat, rep) == s,
    decreases s.len(),
{
    if pat.len() == 0 || s.len() < pat.len() {
    } else {
        if pat.is_prefix_of(s) {
            assert(stands_at(s, pat, 0)) by {
                assert forall|k: int| 0 <= k < pat.len() implies s[0 + k] == #[trigger] pat[k] by {
                    assert(s.take(pat.len() as int)[k] == pat[k]);
                }
            }
        }
        lemma_occurs_in_tail(s, 1, pat);
        lemma_replace_nothing(s.skip(1), pat, rep);
        assert(seq![s[0]] + s.skip(1) =~= s);
    }
}

/// Whether `pat` stands in `s` at position `at`.
fn occurs_at(s: &Vec<char>, pat: &Vec<char>, at: usize) -> (r: bool)
    requires
        at + pat@.len() <= s@.len(),
    ensures
        r == pat@.is_prefix_of(s@.skip(at as int)),
{
    let n: usize = s.len();
    let mut i: usize = 0;
    while i < pat.len()
        invariant
            i <= pat@.len(),
            n == s@.len(),
            at + pat@.len() <= n,
            forall|k: int| 0 <= k < i ==> pat@[k] == s@[at + k],
        decreases pat@.len() - i,
    {
        if s[at + i] != pat[i] {
            proof {
                assert(s@.skip(at as int).take(pat@.len() as int)[i as int] != pat@[i as int]);
            }
            return false;
        }
        i += 1;
    }
    proof {
        assert(s@.skip(at as int).take(pat@.len() as int) =~= pat@);
    }
    true
}

/// Replaces every occurrence of `pat` in `s` by `rep`.
pub fn replaced(s: &str, pat: &str, rep: &str) -> (r: String)
    requires
        pat@.len() > 0,
    ensures
        r@ == replace(s@, pat@, rep@),
{
    let v = chars_of(s);
    let p = chars_of(pat);
    let mut out = String::new();
    let mut i: usize = 0;
    proof {
        assert(v@.skip(0) =~= v@);
        assert(out@ + replace(v@, p@, rep@) =~= replace(v@, p@, rep@));
    }
    while i < v.len() && p.len() <= v.len() - i
        invariant
            i <= v@.len(),
            p@.len() > 0,
            v@ == s@,
            p@ == pat@,
            replace(s@, pat@, rep@) == out@ + replace(v@.skip(i as int), p@, rep@),
        decreases v@.len() - i,
    {
        let ghost rest = v@.skip(i as int);
        let ghost before = out@;
        if occurs_at(&v, &p, i) {
            out.append(rep);
            proof {
                assert(rest.skip(p@.len() as int) =~= v@.skip(i + p@.len()));
                assert(before + (rep@ + replace(v@.skip(i + p@.len()), p@, rep@)) =~= out@ + replace(
                    v@.skip(i + p@.len()),
                    p@,
                    rep@,
                ));
            }
            i += p.len();
        } else {
            out.push(v[i]);
            proof {
                assert(rest.skip(1) =~= v@.skip(i + 1));
                assert(before + (seq![rest[0]] + replace(v@.skip(i + 1), p@, rep@)) =~= out@
                    + replace(v@.skip(i + 1), p@, rep@));
            }
            i += 1;
        }
    }
    let tail = string_of(&v, i, v.len());
    proof {
        assert(v@.subrange(i as int, v@.len() as int) =~= v@.skip(i as int));
    }
    out.append(tail.as_str());
    out
}

/// The decimal digit `d`.
pub open spec fn digit(d: nat) -> char {
    ('0' as int + d) as char
}

/// `n` in decimal, without leading zeros.
pub open spec fn decimal(n: nat) -> Seq<char>
    decreases n,
{
    if n < 10 {
        seq![digit(n)]
    } else {
        decimal(n / 10).push(digit(n % 10))
    }
}

/// Writes `n` in decimal.
pub fn decimal_string(n: u64) -> (r: String)
    ensures
        r@ == decimal(n as nat),
    decreases n,
{
    let last = (48u8 + (n % 10) as u8) as char;
    let mut r = if n < 10 {
        String::new()
    } else {
        decimal_string(n / 10)
    };
    r.push(last);
    proof {
        if n < 10 {
            assert(r@ =~= decimal(n as nat));
        }
    }
    r
}

/// Whether `c` is one of the ten decimal digits.
pub open spec fn is_digit(c: char) -> bool {
    '0' <= c <= '9'
}

/// A decimal numeral is a non-empty row of digits.
pub proof fn lemma_decimal_digits(n: nat)
    ensures
        decimal(n).len() > 0,
        all_digits(decimal(n)),
    decreases n,
{
    if n >= 10 {
        lemma_decimal_digits(n / 10);
    }
}

/// Different numbers have different numerals.
pub proof fn lemma_decimal_injective(a: nat, b: nat)
    requires
        decimal(a) == decimal(b),
    ensures
        a == b,
    decreases a,
{
    lemma_decimal_digits(a / 10);
    lemma_decimal_digits(b / 10);
    assert(decimal(a).last() == digit(a % 10));
    assert(decimal(b).last() == digit(b % 10));
    if a < 10 {
        assert(decimal(a).len() == 1);
        if b >= 10 {
            assert(decimal(b).len() > 1);
        }
    } else {
        assert(decimal(a).len() > 1);
        assert(decimal(a).drop_last() =~= decimal(a / 10));
        assert(b >= 10) by {
            if b < 10 {
                assert(decimal(b).len() == 1);
            }
        }
        assert(decimal(b).drop_last() =~= decimal(b / 10));
        lemma_decimal_injective(a / 10, b / 10);
    }
}

/// The part of `s` behind the prefix `p`, if `s` begins with `p`.
pub open spec fn behind(s: Seq<char>, p: Seq<char>) -> Option<Seq<char>> {
    if p.is_prefix_of(s) {
        Some(s.skip(p.len() as int))
    } else {
        None
    }
}

/// Strips the prefix `p` from `s`.
pub fn stripped(s: &str, p: &str) -> (r: Option<String>)
    ensures
        match behind(s@, p@) {
            Some(rest) => r is Some && r->0@ == rest,
            None => r is None,
        },
{
    let v = chars_of(s);
    let q = chars_of(p);
    if q.len() <= v.len() {
        proof {
            assert(v@.skip(0) =~= v@);
        }
        if occurs_at(&v, &q, 0) {
            proof {
                assert(v@.subrange(q@.len() as int, v@.len() as int) =~= v@.skip(q@.len() as int));
            }
            return Some(string_of(&v, q.len(), v.len()));
        }
    }
    None
}

/// Whether two strings hold the same characters.
pub fn same(a: &str, b: &str) -> (r: bool)
    ensures
        r == (a@ == b@),
{
    a.to_owned() == b.to_owned()
}

/// Whether a string is all white space.
pub open spec fn all_white(s: Seq<char>) -> bool {
    forall|i: int| 0 <= i < s.len() ==> white_space(#[trigger] s[i])
}

/// Whether a string has something in it and neither begins nor ends with
/// white space.
pub open spec fn is_core(s: Seq<char>) -> bool {
    s.len() > 0 && !white_space(s[0]) && !white_space(s[s.len() - 1])
}

/// White space in front is removed.
proof fn lemma_trim_start_drops(a: Seq<char>, s: Seq<char>)
    requires
        all_white(a),
    ensures
        trim_start(a + s) == trim_start(s),
    decreases a.len(),
{
    if a.len() == 0 {
        assert(a + s =~= s);
    } else {
        assert((a + s)[0] == a[0]);
        assert((a + s).skip(1) =~= a.skip(1) + s);
        assert forall|i: int| 0 <= i < a.skip(1).len() implies white_space(
            #[trigger] a.skip(1)[i],
        ) by {
            assert(white_space(a[i + 1]));
        }
        lemma_trim_start_drops(a.skip(1), s);
    }
}

/// White space behind is removed.
proof fn lemma_trim_end_drops(s: Seq<char>, b: Seq<char>)
    requires
        all_white(b),
    ensures
        trim_end(s + b) == trim_end(s),
    decreases b.len(),
{
    if b.len() == 0 {
        assert(s + b =~= s);
    } else {
        assert((s + b).last() == b[b.len() - 1]);
        assert((s + b).drop_last() =~= s + b.drop_last());
        assert forall|i: int| 0 <= i < b.drop_last().len() implies white_space(
            #[trigger] b.drop_last()[i],
        ) by {
            assert(white_space(b[i]));
        }
        lemma_trim_end_drops(s, b.drop_last());
    }
}

/// Trimming takes away the white space around a text and nothing else, however
/// long the text is; of white space alone nothing is left.
pub proof fn law_trim_removes_white_space_only(a: Seq<char>, k: Seq<char>, b: Seq<char>)
    requires
        all_white(a),
        all_white(b),
    ensures
        is_core(k) ==> trim(a + k + b) == k,
        trim(a + b).len() == 0,
{
    assert(a + k + b =~= a + (k + b));
    lemma_trim_start_drops(a, k + b);
    if is_core(k) {
        assert((k + b)[0] == k[0]);
        assert(trim_start(k + b) == k + b);
        lemma_trim_end_drops(k, b);
        assert(trim_end(k) == k);
    }
    lemma_trim_start_drops(a, b);
    lemma_trim_start_drops(b, Seq::empty());
    assert(b + Seq::<char>::empty() =~= b);
}

/// Every text is white space alone, or something with white space around it.
pub proof fn law_every_text_has_a_core(s: Seq<char>) -> (r: (Seq<char>, Seq<char>, Seq<char>))
    ensures
        all_white(r.0),
        all_white(r.2),
        s == r.0 + r.1 + r.2,
        is_core(r.1) || r.1.len() == 0,
        trim(s) == r.1,
    decreases s.len(),
{
    if s.len() == 0 {
        assert(s =~= s + s + s);
        (s, s, s)
    } else if white_space(s[0]) {
        let (a, k, b) = law_every_text_has_a_core(s.skip(1));
        let front = seq![s[0]] + a;
        assert(s =~= seq![s[0]] + s.skip(1));
        assert(seq![s[0]] + (a + k + b) =~= front + k + b);
        assert(all_white(front)) by {
            assert forall|i: int| 0 <= i < front.len() implies white_space(#[trigger] front[i]) by {
                if i > 0 {
                    assert(white_space(a[i - 1]));
                }
            }
        }
        (front, k, b)
    } else if white_space(s.last()) {
        let (a, k, b) = law_every_text_has_a_core(s.drop_last());
        let back = b.push(s.last());
        assert(s =~= s.drop_last().push(s.last()));
        assert((a + k + b).push(s.last()) =~= a + k + back);
        assert(all_white(back)) by {
            assert forall|i: int| 0 <= i < back.len() implies white_space(#[trigger] back[i]) by {
                if i < b.len() {
                    assert(white_space(b[i]));
                }
            }
        }
        law_trim_removes_white_space_only(a, k, back);
        if k.len() == 0 {
            assert(a + k + back =~= a + back);
            assert(trim(s) =~= k);
        }
        (a, k, back)
    } else {
        let none = Seq::<char>::empty();
        assert(s =~= none + s + none);
        law_trim_removes_white_space_only(none, s, none);
        (none, s, none)
    }
}

/// Replacing goes from left to right: up to the first occurrence a string
/// stays as it is, the occurrence gives way to the replacement, and the rest
/// is gone through in the same way.
pub proof fn law_replace_goes_left_to_right(
    a: Seq<char>,
    pat: Seq<char>,
    rest: Seq<char>,
    rep: Seq<char>,
)
    requires
        pat.len() > 0,
        forall|i: int| 0 <= i < a.len() ==> !(#[trigger] stands_at(a + pat + rest, pat, i)),
    ensures
        replace(a + pat + rest, pat, rep) == a + rep + replace(rest, pat, rep),
    decreases a.len(),
{
    let s = a + pat + rest;
    if a.len() == 0 {
        assert(s =~= pat + rest);
        assert(s.take(pat.len() as int) =~= pat);
        assert(pat.is_prefix_of(s));
        assert(s.skip(pat.len() as int) =~= rest);
        assert(a + rep + replace(rest, pat, rep) =~= rep + replace(rest, pat, rep));
    } else {
        if pat.is_prefix_of(s) {
            assert(stands_at(s, pat, 0)) by {
                assert forall|k: int| 0 <= k < pat.len() implies s[0 + k] == #[trigger] pat[k] by {
                    assert(s.take(pat.len() as int)[k] == pat[k]);
                }
            }
        }
        let tail = a.skip(1) + pat + rest;
        assert(s.skip(1) =~= tail);
        assert forall|i: int| 0 <= i < a.skip(1).len() implies !(
        #[trigger] stands_at(tail, pat, i)) by {
            if stands_at(tail, pat, i) {
                assert(stands_at(s, pat, i + 1)) by {
                    assert forall|k: int| 0 <= k < pat.len() implies s[i + 1 + k]
                        == #[trigger] pat[k] by {
                        assert(tail[i + k] == pat[k]);
                    }
                }
            }
        }
        law_replace_goes_left_to_right(a.skip(1), pat, rest, rep);
        assert(seq![s[0]] + (a.skip(1) + rep + replace(rest, pat, rep)) =~= a + rep + replace(
            rest,
            pat,
            rep,
        ));
    }
}

/// A string in which the pattern does not stand is not changed.
pub proof fn law_replace_leaves_the_rest_alone(s: Seq<char>, pat: Seq<char>, rep: Seq<char>)
    requires
        forall|i: int| !(#[trigger] stands_at(s, pat, i)),
    ensures
        replace(s, pat, rep) == s,
{
    lemma_replace_nothing(s, pat, rep);
}

/// A pattern stands at a place if the string goes on there with the pattern.
pub proof fn law_pattern_stands_between(a: Seq<char>, pat: Seq<char>, b: Seq<char>)
    ensures
        stands_at(a + pat + b, pat, a.len() as int),
{
}

/// The number that a row of digits stands for.
pub open spec fn number_of(s: Seq<char>) -> int
    decreases s.len(),
{
    if s.len() == 0 {
        0
    } else {
        10 * number_of(s.drop_last()) + (s[s.len() - 1] as int - 48)
    }
}

/// A decimal numeral stands for its number, is made of the digits from `0` to
/// `9`, and does not begin with a zero unless that is all of it.
pub proof fn law_decimal_stands_for_its_number(n: nat)
    ensures
        number_of(decimal(n)) == n,
        decimal(n).len() > 0,
        forall|i: int| 0 <= i < decimal(n).len() ==> '0' <= #[trigger] decimal(n)[i] <= '9',
        decimal(n).len() > 1 ==> decimal(n)[0] != '0',
        n > 0 ==> decimal(n)[0] != '0',
    decreases n,
{
    if n < 10 {
        assert(decimal(n).drop_last() =~= Seq::empty());
        assert(number_of(decimal(n).drop_last()) == 0);
    } else {
        law_decimal_stands_for_its_number(n / 10);
        assert(decimal(n).drop_last() =~= decimal(n / 10));
        assert(decimal(n)[0] == decimal(n / 10)[0]);
    }
}

/// What is behind a prefix is what makes the string up together with it.
pub proof fn law_prefix_and_rest_make_the_string(s: Seq<char>, p: Seq<char>, rest: Seq<char>)
    ensures
        behind(s, p) == Some(rest) <==> s == p + rest,
        behind(p + rest, p) == Some(rest),
{
    assert((p + rest).take(p.len() as int) =~= p);
    assert((p + rest).skip(p.len() as int) =~= rest);
    if p.is_prefix_of(s) {
        assert(s =~= p + s.skip(p.len() as int));
    }
}

/// The code points with the Unicode property `White_Space`, in order.
pub open spec fn white_space_code_points() -> Seq<u32> {
    seq![
        0x9, 0xa, 0xb, 0xc, 0xd,
        0x20, 0x85, 0xa0, 0x1680, 0x2000,
        0x2001, 0x2002, 0x2003, 0x2004, 0x2005,
        0x2006, 0x2007, 0x2008, 0x2009, 0x200a,
        0x2028, 0x2029, 0x202f, 0x205f, 0x3000,
    ]
}

/// The characters that count as white space are those twenty-five, and no
/// other.
pub proof fn law_white_space_characters(c: char)
    ensures
        white_space(c) <==> white_space_code_points().contains(c as u32),
{
    let table = white_space_code_points();
    if white_space(c) {
        let n = c as u32;
        let i: int = if n <= 0xd {
            n - 9
        } else if n == 0x20 {
            5
        } else if n == 0x85 {
            6
        } else if n == 0xa0 {
            7
        } else if n == 0x1680 {
            8
        } else if n <= 0x200a {
            n - 0x2000 + 9
        } else if n == 0x2028 {
            20
        } else if n == 0x2029 {
            21
        } else if n == 0x202f {
            22
        } else if n == 0x205f {
            23
        } else {
            24
        };
        assert(table[i] == n);
    }
}

} // verus!
