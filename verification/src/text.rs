//! Text primitives shared by the metrics: whitespace, trimming and tokenizing.

use vstd::prelude::*;
use vstd::string::*;

verus! {

broadcast use vstd::std_specs::iter::group_iter_axioms;

/// Unicode `White_Space` property, as used by `char::is_whitespace`.
pub open spec fn is_ws(c: char) -> bool {
    let u = c as u32;
    (0x09 <= u && u <= 0x0D) || u == 0x20 || u == 0x85 || u == 0xA0 || u == 0x1680
        || (0x2000 <= u && u <= 0x200A) || u == 0x2028 || u == 0x2029 || u == 0x202F
        || u == 0x205F || u == 0x3000
}

/// Whether `c` is a Unicode whitespace character.
pub fn is_whitespace(c: char) -> (res: bool)
    ensures
        res == is_ws(c),
{
    let u = c as u32;
    (0x09 <= u && u <= 0x0D) || u == 0x20 || u == 0x85 || u == 0xA0 || u == 0x1680 || (0x2000
        <= u && u <= 0x200A) || u == 0x2028 || u == 0x2029 || u == 0x202F || u == 0x205F || u
        == 0x3000
}

/// The characters of a string slice.
pub fn chars_of(s: &str) -> (res: Vec<char>)
    ensures
        res@ == s@,
{
    let mut res: Vec<char> = Vec::new();
    for c in it: s.chars()
        invariant
            res@ == it.seq().take(it.index() as int),
    {
        res.push(c);
    }
    res
}


/// A text with whitespace removed from both ends.
pub open spec fn trim(s: Seq<char>) -> Seq<char>
    decreases s.len(),
{
    if s.len() > 0 && is_ws(s[0]) {
        trim(s.drop_first())
    } else if s.len() > 0 && is_ws(s.last()) {
        trim(s.drop_last())
    } else {
        s
    }
}

/// A trimmed text has no whitespace at either end.
pub proof fn lemma_trim_ends(s: Seq<char>)
    ensures
        trim(s).len() > 0 ==> !is_ws(trim(s)[0]) && !is_ws(trim(s).last()),
    decreases s.len(),
{
    if s.len() > 0 && is_ws(s[0]) {
        lemma_trim_ends(s.drop_first());
    } else if s.len() > 0 && is_ws(s.last()) {
        lemma_trim_ends(s.drop_last());
    }
}

/// Trimming twice is trimming once.
pub proof fn lemma_trim_idempotent(s: Seq<char>)
    ensures
        trim(trim(s)) == trim(s),
{
    lemma_trim_ends(s);
}

/// The bounds `(start, end)` of the trimmed part of `s`.
pub fn trim_bounds(s: &[char]) -> (res: (usize, usize))
    ensures
        res.0 <= res.1 <= s@.len(),
        trim(s@) == s@.subrange(res.0 as int, res.1 as int),
{
    let n = s.len();
    let mut i: usize = 0;
    assert(s@.subrange(0, n as int) =~= s@);
    while i < n && is_whitespace(s[i])
        invariant
            i <= n == s@.len(),
            trim(s@) == trim(s@.subrange(i as int, n as int)),
        decreases n - i,
    {
        assert(s@.subrange(i as int, n as int).drop_first() =~= s@.subrange(i + 1, n as int));
        i = i + 1;
    }
    let mut j: usize = n;
    while j > i && is_whitespace(s[j - 1])
        invariant
            i <= j <= n == s@.len(),
            i < n ==> !is_ws(s@[i as int]),
            trim(s@) == trim(s@.subrange(i as int, j as int)),
        decreases j - i,
    {
        let ghost t = s@.subrange(i as int, j as int);
        assert(t.drop_last() =~= s@.subrange(i as int, j - 1));
        assert(!(t.len() > 0 && is_ws(t[0])));
        j = j - 1;
    }
    (i, j)
}

/// `s` with surrounding whitespace removed.
pub fn trim_str(s: &str) -> (res: &str)
    ensures
        res@ == trim(s@),
{
    let cs = chars_of(s);
    let (a, b) = trim_bounds(cs.as_slice());
    s.substring_char(a, b)
}

/// The characters of `s` with surrounding whitespace removed.
pub fn trim_chars(s: &[char]) -> (res: Vec<char>)
    ensures
        res@ == trim(s@),
{
    let (a, b) = trim_bounds(s);
    slice_range(s, a, b)
}

/// A copy of `s[a..b]`.
pub fn slice_range(s: &[char], a: usize, b: usize) -> (res: Vec<char>)
    requires
        a <= b <= s@.len(),
    ensures
        res@ == s@.subrange(a as int, b as int),
{
    let mut res: Vec<char> = Vec::new();
    let mut k = a;
    while k < b
        invariant
            a <= k <= b <= s@.len(),
            res@ == s@.subrange(a as int, k as int),
        decreases b - k,
    {
        res.push(s[k]);
        k = k + 1;
        assert(res@ =~= s@.subrange(a as int, k as int));
    }
    res
}

/// Left-to-right scan state of whitespace splitting: the finished tokens and
/// the token being read.
pub open spec fn scan(s: Seq<char>) -> (Seq<Seq<char>>, Seq<char>)
    decreases s.len(),
{
    if s.len() == 0 {
        (Seq::empty(), Seq::empty())
    } else {
        let (done, cur) = scan(s.drop_last());
        if is_ws(s.last()) {
            if cur.len() > 0 {
                (done.push(cur), Seq::empty())
            } else {
                (done, cur)
            }
        } else {
            (done, cur.push(s.last()))
        }
    }
}

/// The maximal runs of non-whitespace characters of `s`, in order
/// (the behaviour of `str::split_whitespace`).
pub open spec fn tokens(s: Seq<char>) -> Seq<Seq<char>> {
    let (done, cur) = scan(s);
    if cur.len() > 0 {
        done.push(cur)
    } else {
        done
    }
}

/// Splits a text into whitespace-separated tokens.
pub fn split_tokens(s: &[char]) -> (res: Vec<Vec<char>>)
    ensures
        res@.len() == tokens(s@).len(),
        forall|i: int| 0 <= i < res@.len() ==> #[trigger] res@[i]@ == tokens(s@)[i],
{
    let mut done: Vec<Vec<char>> = Vec::new();
    let mut cur: Vec<char> = Vec::new();
    let mut i: usize = 0;
    while i < s.len()
        invariant
            i <= s@.len(),
            done@.len() == scan(s@.take(i as int)).0.len(),
            forall|k: int| 0 <= k < done@.len() ==> #[trigger] done@[k]@ == scan(s@.take(i as int)).0[k],
            cur@ == scan(s@.take(i as int)).1,
        decreases s@.len() - i,
    {
        assert(s@.take(i + 1).drop_last() =~= s@.take(i as int));
        if is_whitespace(s[i]) {
            if cur.len() > 0 {
                done.push(cur);
                cur = Vec::new();
            }
        } else {
            cur.push(s[i]);
        }
        i = i + 1;
    }
    assert(s@.take(i as int) =~= s@);
    if cur.len() > 0 {
        done.push(cur);
    }
    done
}

/// Whitespace tokens of a string slice.
pub fn tokenize(s: &str) -> (res: Vec<Vec<char>>)
    ensures
        res@.len() == tokens(s@).len(),
        forall|i: int| 0 <= i < res@.len() ==> #[trigger] res@[i]@ == tokens(s@)[i],
{
    let cs = chars_of(s);
    split_tokens(cs.as_slice())
}

/// Whether two character slices are equal.
pub fn chars_eq(a: &[char], b: &[char]) -> (res: bool)
    ensures
        res == (a@ == b@),
{
    if a.len() != b.len() {
        return false;
    }
    let mut i: usize = 0;
    while i < a.len()
        invariant
            a@.len() == b@.len(),
            i <= a@.len(),
            forall|k: int| 0 <= k < i ==> a@[k] == b@[k],
        decreases a@.len() - i,
    {
        if a[i] != b[i] {
            return false;
        }
        i = i + 1;
    }
    assert(a@ =~= b@);
    true
}

/// ASCII lower case of a character.
pub open spec fn ascii_lower(c: char) -> char {
    if 'A' <= c && c <= 'Z' { ((c as u32) + 32) as char } else { c }
}

/// `s` equals `w` when ASCII letters are compared without case.
pub open spec fn eq_fold(s: Seq<char>, w: Seq<char>) -> bool {
    s.len() == w.len() && forall|i: int| 0 <= i < s.len() ==> ascii_lower(#[trigger] s[i]) == w[i]
}

/// Whether `s` equals the lower-case word `w`, ASCII letters compared without case.
pub fn eq_fold_exec(s: &[char], w: &[char]) -> (res: bool)
    requires
        forall|i: int| 0 <= i < w@.len() ==> !('A' <= #[trigger] w@[i] && w@[i] <= 'Z'),
    ensures
        res == eq_fold(s@, w@),
{
    if s.len() != w.len() {
        return false;
    }
    let mut i: usize = 0;
    while i < s.len()
        invariant
            s@.len() == w@.len(),
            i <= s@.len(),
            forall|k: int| 0 <= k < i ==> ascii_lower(#[trigger] s@[k]) == w@[k],
        decreases s@.len() - i,
    {
        let c = s[i];
        let l = if c >= 'A' && c <= 'Z' { ((c as u32) + 32) as u8 as char } else { c };
        proof {
            if 'A' <= c && c <= 'Z' {
                assert(((c as u32) + 32) as u8 as char == ((c as u32) + 32) as char);
            }
        }
        if l != w[i] {
            return false;
        }
        i = i + 1;
    }
    true
}

} // verus!
