//! Verified string primitives the row pipeline is built on: whitespace
//! trimming, equality, substring search, currency-symbol stripping and
//! leading-sign flipping, each pinned to a spec function over `Seq<char>`.

use vstd::prelude::*;
use vstd::string::StrSliceExecFns;
use vstd::string::StringExecFns;

verus! {

/// The characters with Unicode's White_Space property: what trimming removes.
pub open spec fn is_ws(c: char) -> bool {
    ||| c == ' '
    ||| c == '\t'
    ||| c == '\n'
    ||| c == '\r'
    ||| c == '\u{000b}'
    ||| c == '\u{000c}'
    ||| c == '\u{0085}'
    ||| c == '\u{00a0}'
    ||| c == '\u{1680}'
    ||| c == '\u{2000}'
    ||| c == '\u{2001}'
    ||| c == '\u{2002}'
    ||| c == '\u{2003}'
    ||| c == '\u{2004}'
    ||| c == '\u{2005}'
    ||| c == '\u{2006}'
    ||| c == '\u{2007}'
    ||| c == '\u{2008}'
    ||| c == '\u{2009}'
    ||| c == '\u{200a}'
    ||| c == '\u{2028}'
    ||| c == '\u{2029}'
    ||| c == '\u{202f}'
    ||| c == '\u{205f}'
    ||| c == '\u{3000}'
}

/// `s` without its leading whitespace.
pub open spec fn trim_front(s: Seq<char>) -> Seq<char>
    decreases s.len(),
{
    if s.len() > 0 && is_ws(s[0]) {
        trim_front(s.drop_first())
    } else {
        s
    }
}

/// `s` without its trailing whitespace.
pub open spec fn trim_back(s: Seq<char>) -> Seq<char>
    decreases s.len(),
{
    if s.len() > 0 && is_ws(s.last()) {
        trim_back(s.drop_last())
    } else {
        s
    }
}

/// `s` without leading and trailing whitespace.
pub open spec fn spec_trim(s: Seq<char>) -> Seq<char> {
    trim_back(trim_front(s))
}

/// Neither end of `s` carries whitespace.
pub open spec fn is_trimmed(s: Seq<char>) -> bool {
    s.len() > 0 ==> !is_ws(s[0]) && !is_ws(s.last())
}

/// `needle` occurs somewhere in `hay`.
pub open spec fn spec_contains(hay: Seq<char>, needle: Seq<char>) -> bool {
    exists|i: int|
        0 <= i && i + needle.len() <= hay.len() && #[trigger] hay.subrange(i, i + needle.len())
            == needle
}

/// `s` with every `$` removed.
pub open spec fn spec_strip_dollars(s: Seq<char>) -> Seq<char>
    decreases s.len(),
{
    if s.len() == 0 {
        s
    } else if s[0] == '$' {
        spec_strip_dollars(s.drop_first())
    } else {
        seq![s[0]] + spec_strip_dollars(s.drop_first())
    }
}

/// `s` begins with a minus sign.
pub open spec fn leading_minus(s: Seq<char>) -> bool {
    s.len() > 0 && s[0] == '-'
}

/// The opposite sign representation: a leading `-` is dropped, otherwise one
/// is put in front.
pub open spec fn spec_flip(s: Seq<char>) -> Seq<char> {
    if leading_minus(s) {
        s.drop_first()
    } else {
        seq!['-'] + s
    }
}

/// One amount field brought to the canonical "leading minus means expense"
/// form: trimmed, stripped of `$`, and sign-flipped exactly when the sign
/// convention in force says a minus marks income (`Some(false)`).
pub open spec fn spec_norm(s: Seq<char>, minus_indicates_expense: Option<bool>) -> Seq<char> {
    let t = spec_strip_dollars(spec_trim(s));
    if minus_indicates_expense == Some(false) {
        spec_flip(t)
    } else {
        t
    }
}

proof fn lemma_trim_front_at(s: Seq<char>, k: int)
    requires
        0 <= k <= s.len(),
        forall|j: int| 0 <= j < k ==> is_ws(s[j]),
        k == s.len() || !is_ws(s[k]),
    ensures
        trim_front(s) == s.subrange(k, s.len() as int),
    decreases k,
{
    if k == 0 {
        assert(s.subrange(0, s.len() as int) =~= s);
    } else {
        let t = s.drop_first();
        lemma_trim_front_at(t, k - 1);
        assert(t.subrange(k - 1, t.len() as int) =~= s.subrange(k, s.len() as int));
    }
}

proof fn lemma_trim_back_at(s: Seq<char>, k: int)
    requires
        0 <= k <= s.len(),
        forall|j: int| k <= j < s.len() ==> is_ws(s[j]),
        k == 0 || !is_ws(s[k - 1]),
    ensures
        trim_back(s) == s.subrange(0, k),
    decreases s.len() - k,
{
    if k == s.len() {
        assert(s.subrange(0, k) =~= s);
    } else {
        assert(is_ws(s.last()));
        let t = s.drop_last();
        lemma_trim_back_at(t, k);
        assert(t.subrange(0, k) =~= s.subrange(0, k));
    }
}

proof fn lemma_trim_front_head(s: Seq<char>)
    ensures
        trim_front(s).len() > 0 ==> !is_ws(trim_front(s)[0]),
    decreases s.len(),
{
    if s.len() > 0 && is_ws(s[0]) {
        lemma_trim_front_head(s.drop_first());
    }
}

proof fn lemma_trim_back_last(s: Seq<char>)
    ensures
        trim_back(s).len() > 0 ==> !is_ws(trim_back(s).last()),
    decreases s.len(),
{
    if s.len() > 0 && is_ws(s.last()) {
        lemma_trim_back_last(s.drop_last());
    }
}

proof fn lemma_trim_back_head(s: Seq<char>)
    ensures
        trim_back(s).len() > 0 ==> s.len() > 0 && trim_back(s)[0] == s[0],
    decreases s.len(),
{
    if s.len() > 0 && is_ws(s.last()) {
        lemma_trim_back_head(s.drop_last());
    }
}

/// Trimming leaves an already-trimmed value unchanged.
proof fn lemma_trim_fixes_trimmed(s: Seq<char>)
    requires
        is_trimmed(s),
    ensures
        spec_trim(s) == s,
{
}

/// What trimming returns carries no whitespace at either end.
proof fn lemma_trim_is_trimmed(s: Seq<char>)
    ensures
        is_trimmed(spec_trim(s)),
{
    lemma_trim_front_head(s);
    lemma_trim_back_head(trim_front(s));
    lemma_trim_back_last(trim_front(s));
}

proof fn lemma_trim_front_keeps_free(s: Seq<char>, c: char)
    requires
        forall|i: int| 0 <= i < s.len() ==> s[i] != c,
    ensures
        forall|i: int| 0 <= i < trim_front(s).len() ==> trim_front(s)[i] != c,
    decreases s.len(),
{
    if s.len() > 0 && is_ws(s[0]) {
        assert forall|i: int| 0 <= i < s.drop_first().len() implies s.drop_first()[i] != c by {
            assert(s.drop_first()[i] == s[i + 1]);
        }
        lemma_trim_front_keeps_free(s.drop_first(), c);
        assert(trim_front(s) == trim_front(s.drop_first()));
        assert forall|i: int| 0 <= i < trim_front(s).len() implies trim_front(s)[i] != c by {
            assert(trim_front(s)[i] == trim_front(s.drop_first())[i]);
        }
    } else {
        assert forall|i: int| 0 <= i < trim_front(s).len() implies trim_front(s)[i] != c by {
            assert(trim_front(s)[i] == s[i]);
        }
    }
}

proof fn lemma_trim_back_keeps_free(s: Seq<char>, c: char)
    requires
        forall|i: int| 0 <= i < s.len() ==> s[i] != c,
    ensures
        forall|i: int| 0 <= i < trim_back(s).len() ==> trim_back(s)[i] != c,
    decreases s.len(),
{
    if s.len() > 0 && is_ws(s.last()) {
        assert forall|i: int| 0 <= i < s.drop_last().len() implies s.drop_last()[i] != c by {
            assert(s.drop_last()[i] == s[i]);
        }
        lemma_trim_back_keeps_free(s.drop_last(), c);
        assert(trim_back(s) == trim_back(s.drop_last()));
        assert forall|i: int| 0 <= i < trim_back(s).len() implies trim_back(s)[i] != c by {
            assert(trim_back(s)[i] == trim_back(s.drop_last())[i]);
        }
    } else {
        assert forall|i: int| 0 <= i < trim_back(s).len() implies trim_back(s)[i] != c by {
            assert(trim_back(s)[i] == s[i]);
        }
    }
}

proof fn lemma_strip_dollars_id(s: Seq<char>)
    requires
        forall|i: int| 0 <= i < s.len() ==> s[i] != '$',
    ensures
        spec_strip_dollars(s) == s,
    decreases s.len(),
{
    if s.len() > 0 {
        lemma_strip_dollars_id(s.drop_first());
        assert(seq![s[0]] + s.drop_first() =~= s);
    }
}

/// Sign round-trip law. For an amount `a` with no currency symbol, normalizing
/// under the convention "minus means income" flips exactly the leading sign of
/// the trimmed amount and keeps every other character. The flipped value is
/// already canonical: normalizing it again under "minus means expense", or
/// under no stated convention, yields it unchanged. (Left out are amounts
/// whose trimmed form opens with a minus followed by whitespace: there,
/// dropping the minus exposes whitespace that a second trim would remove.)
pub proof fn lemma_sign_round_trip(a: Seq<char>)
    requires
        forall|i: int| 0 <= i < a.len() ==> a[i] != '$',
        !(spec_trim(a).len() >= 2 && spec_trim(a)[0] == '-' && is_ws(spec_trim(a)[1])),
    ensures
        spec_norm(a, Some(false)) == spec_flip(spec_trim(a)),
        spec_norm(spec_norm(a, Some(false)), Some(true)) == spec_norm(a, Some(false)),
        spec_norm(spec_norm(a, Some(false)), None) == spec_norm(a, Some(false)),
{
    let t = spec_trim(a);
    lemma_trim_front_keeps_free(a, '$');
    lemma_trim_back_keeps_free(trim_front(a), '$');
    lemma_strip_dollars_id(t);
    let f = spec_flip(t);
    lemma_trim_is_trimmed(a);
    if leading_minus(t) {
        assert(f =~= t.subrange(1, t.len() as int));
        if f.len() > 0 {
            assert(f[0] == t[1] && !is_ws(f[0]));
            assert(f.last() == t.last());
        }
    } else {
        assert(f[0] == '-');
        if t.len() > 0 {
            assert(f.last() == t.last());
        }
    }
    assert(is_trimmed(f));
    lemma_trim_fixes_trimmed(f);
    assert(forall|i: int| 0 <= i < f.len() ==> f[i] != '$');
    lemma_strip_dollars_id(f);
}

/// Whether `c` is whitespace, decided in executable code.
pub fn is_ws_char(c: char) -> (r: bool)
    ensures
        r == is_ws(c),
{
    c == ' ' || c == '\t' || c == '\n' || c == '\r' || c == '\u{000b}' || c == '\u{000c}'
        || c == '\u{0085}' || c == '\u{00a0}' || c == '\u{1680}' || c == '\u{2000}'
        || c == '\u{2001}' || c == '\u{2002}' || c == '\u{2003}' || c == '\u{2004}'
        || c == '\u{2005}' || c == '\u{2006}' || c == '\u{2007}' || c == '\u{2008}'
        || c == '\u{2009}' || c == '\u{200a}' || c == '\u{2028}' || c == '\u{2029}'
        || c == '\u{202f}' || c == '\u{205f}' || c == '\u{3000}'
}

/// `s` without leading and trailing whitespace.
pub fn trim_str(s: &str) -> (r: &str)
    ensures
        r@ == spec_trim(s@),
{
    let n = s.unicode_len();
    let mut start: usize = 0;
    while start < n && is_ws_char(s.get_char(start))
        invariant
            n == s@.len(),
            0 <= start <= n,
            forall|j: int| 0 <= j < start ==> is_ws(s@[j]),
        decreases n - start,
    {
        start = start + 1;
    }
    let mut end: usize = n;
    while end > start && is_ws_char(s.get_char(end - 1))
        invariant
            n == s@.len(),
            start <= end <= n,
            forall|j: int| end <= j < n ==> is_ws(s@[j]),
        decreases end,
    {
        end = end - 1;
    }
    proof {
        lemma_trim_front_at(s@, start as int);
        let t = s@.subrange(start as int, n as int);
        lemma_trim_back_at(t, end - start);
        assert(t.subrange(0, end - start) =~= s@.subrange(start as int, end as int));
    }
    s.substring_char(start, end)
}

/// Character-for-character string equality.
pub fn str_eq(a: &str, b: &str) -> (r: bool)
    ensures
        r == (a@ == b@),
{
    let n = a.unicode_len();
    if n != b.unicode_len() {
        return false;
    }
    let mut i: usize = 0;
    while i < n
        invariant
            n == a@.len(),
            n == b@.len(),
            0 <= i <= n,
            forall|j: int| 0 <= j < i ==> a@[j] == b@[j],
        decreases n - i,
    {
        if a.get_char(i) != b.get_char(i) {
            return false;
        }
        i = i + 1;
    }
    proof {
        assert(a@ =~= b@);
    }
    true
}

/// Whether `hay` matches `needle` character for character at offset `i`.
fn matches_at(hay: &str, needle: &str, i: usize) -> (r: bool)
    requires
        i + needle@.len() <= hay@.len(),
    ensures
        r == (hay@.subrange(i as int, i + needle@.len()) == needle@),
{
    let n = needle.unicode_len();
    let hn = hay.unicode_len();
    let mut j: usize = 0;
    while j < n
        invariant
            n == needle@.len(),
            hn == hay@.len(),
            i + n <= hn,
            0 <= j <= n,
            forall|k: int| 0 <= k < j ==> hay@[i + k] == needle@[k],
        decreases n - j,
    {
        if hay.get_char(i + j) != needle.get_char(j) {
            proof {
                assert(hay@.subrange(i as int, i + needle@.len())[j as int] == hay@[i + j]);
            }
            return false;
        }
        j = j + 1;
    }
    proof {
        assert(hay@.subrange(i as int, i + needle@.len()) =~= needle@);
    }
    true
}

/// Substring search: does `hay` contain `needle` anywhere?
pub fn str_contains(hay: &str, needle: &str) -> (r: bool)
    ensures
        r == spec_contains(hay@, needle@),
{
    let hn = hay.unicode_len();
    let nn = needle.unicode_len();
    if nn > hn {
        return false;
    }
    if nn == 0 {
        proof {
            assert(hay@.subrange(0, 0 + needle@.len() as int) =~= needle@);
        }
        return true;
    }
    let mut i: usize = 0;
    while i <= hn - nn
        invariant
            hn == hay@.len(),
            nn == needle@.len(),
            0 < nn <= hn,
            0 <= i <= hn - nn + 1,
            forall|k: int|
                0 <= k < i ==> #[trigger] hay@.subrange(k, k + needle@.len()) != needle@,
        decreases hn - nn - i + 1,
    {
        if matches_at(hay, needle, i) {
            return true;
        }
        i = i + 1;
    }
    false
}

proof fn lemma_strip_snoc(s: Seq<char>, c: char)
    ensures
        spec_strip_dollars(s.push(c)) == if c == '$' {
            spec_strip_dollars(s)
        } else {
            spec_strip_dollars(s) + seq![c]
        },
    decreases s.len(),
{
    if s.len() == 0 {
        assert(s.push(c).drop_first() =~= s);
        if c != '$' {
            assert(spec_strip_dollars(s.push(c)) =~= spec_strip_dollars(s) + seq![c]);
        }
    } else {
        assert(s.push(c).drop_first() =~= s.drop_first().push(c));
        lemma_strip_snoc(s.drop_first(), c);
        if s[0] != '$' && c != '$' {
            assert(seq![s[0]] + (spec_strip_dollars(s.drop_first()) + seq![c]) =~= (seq![s[0]]
                + spec_strip_dollars(s.drop_first())) + seq![c]);
        }
    }
}

/// `s` with every `$` removed.
pub fn strip_dollars(s: &str) -> (r: String)
    ensures
        r@ == spec_strip_dollars(s@),
{
    let n = s.unicode_len();
    let mut out = String::new();
    let mut i: usize = 0;
    while i < n
        invariant
            n == s@.len(),
            0 <= i <= n,
            out@ == spec_strip_dollars(s@.subrange(0, i as int)),
        decreases n - i,
    {
        let c = s.get_char(i);
        if c != '$' {
            out.append(s.substring_char(i, i + 1));
            proof {
                assert(s@.subrange(i as int, i + 1) =~= seq![s@[i as int]]);
            }
        }
        proof {
            lemma_strip_snoc(s@.subrange(0, i as int), s@[i as int]);
            assert(s@.subrange(0, i + 1) =~= s@.subrange(0, i as int).push(s@[i as int]));
        }
        i = i + 1;
    }
    proof {
        assert(s@.subrange(0, n as int) =~= s@);
    }
    out
}

/// The opposite sign representation of `s`: drop a leading `-`, or prepend one.
pub fn flip_sign(s: &str) -> (r: String)
    ensures
        r@ == spec_flip(s@),
{
    let n = s.unicode_len();
    if n > 0 && s.get_char(0) == '-' {
        let rest = s.substring_char(1, n);
        proof {
            assert(s@.subrange(1, n as int) =~= s@.drop_first());
        }
        String::from_str(rest)
    } else {
        let mut out = String::from_str("-");
        out.append(s);
        proof {
            reveal_strlit("-");
            assert("-"@ =~= seq!['-']);
        }
        out
    }
}

/// Whether `s` starts with a minus sign.
pub fn has_leading_minus(s: &str) -> (r: bool)
    ensures
        r == leading_minus(s@),
{
    s.unicode_len() > 0 && s.get_char(0) == '-'
}

/// One amount field brought to canonical form, as [`spec_norm`] states it.
pub fn normalize_amount(s: &str, minus_indicates_expense: Option<bool>) -> (r: String)
    ensures
        r@ == spec_norm(s@, minus_indicates_expense),
{
    let stripped = strip_dollars(trim_str(s));
    match minus_indicates_expense {
        Some(false) => flip_sign(stripped.as_str()),
        _ => stripped,
    }
}

} // verus!

