//! Verified text helpers: decimal rendering, substring search, string
//! equality and path basenames, used by the dispatcher and the tracker.

use vstd::prelude::*;
use vstd::string::StrSliceExecFns;

verus! {

/// Digit characters in value order, for decimal rendering.
pub const DIGITS: [char; 10] = ['0', '1', '2', '3', '4', '5', '6', '7', '8', '9'];

/// The decimal rendering of `n`, most significant digit first, no sign and
/// no leading zeros (a single `'0'` for zero).
pub open spec fn dec_of(n: nat) -> Seq<char>
    decreases n,
{
    if n < 10 {
        seq![DIGITS@[n as int]]
    } else {
        dec_of((n / 10) as nat).push(DIGITS@[(n % 10) as int])
    }
}

/// Relies on std's `String::push`: appends exactly one character.
#[verifier::external_body]
fn push_char(s: &mut String, c: char)
    ensures
        final(s)@ == old(s)@.push(c),
{
    s.push(c);
}

/// Renders `n` in decimal.
pub fn u32_to_dec(n: u32) -> (r: String)
    ensures
        r@ == dec_of(n as nat),
    decreases n,
{
    if n < 10 {
        let mut s = String::new();
        push_char(&mut s, DIGITS[n as usize]);
        proof {
            assert(Seq::<char>::empty().push(DIGITS@[n as int]) =~= seq![DIGITS@[n as int]]);
        }
        s
    } else {
        let mut s = u32_to_dec(n / 10);
        push_char(&mut s, DIGITS[(n % 10) as usize]);
        s
    }
}

/// `needle` occurs as a contiguous run inside `hay`.
pub open spec fn is_substr(hay: Seq<char>, needle: Seq<char>) -> bool {
    exists|i: int|
        0 <= i && i + needle.len() <= hay.len() && #[trigger] hay.subrange(i, i + needle.len())
            == needle
}

/// Whether `needle` matches `hay` starting at character offset `i`.
fn matches_at(hay: &str, needle: &str, i: usize) -> (r: bool)
    requires
        i + needle@.len() <= hay@.len(),
        hay@.len() <= usize::MAX,
    ensures
        r == (hay@.subrange(i as int, i + needle@.len()) == needle@),
{
    let n = needle.unicode_len();
    let mut j: usize = 0;
    while j < n
        invariant
            n == needle@.len(),
            i + n <= hay@.len(),
            hay@.len() <= usize::MAX,
            j <= n,
            forall|k: int| 0 <= k < j ==> hay@[i + k] == needle@[k],
        decreases n - j,
    {
        if hay.get_char(i + j) != needle.get_char(j) {
            proof {
                assert(hay@.subrange(i as int, i + needle@.len())[j as int] == hay@[i + j]);
            }
            return false;
        }
        j += 1;
    }
    proof {
        assert(hay@.subrange(i as int, i + needle@.len()) =~= needle@);
    }
    true
}

/// Substring search; the executable counterpart of [`is_substr`].
pub fn str_contains(hay: &str, needle: &str) -> (r: bool)
    ensures
        r == is_substr(hay@, needle@),
{
    let h = hay.unicode_len();
    let n = needle.unicode_len();
    if n > h {
        return false;
    }
    if n == 0 {
        proof {
            assert(is_substr(hay@, needle@)) by {
                assert(hay@.subrange(0, 0 + needle@.len() as int) =~= needle@);
            }
        }
        return true;
    }
    let mut i: usize = 0;
    while i <= h - n
        invariant
            h == hay@.len(),
            n == needle@.len(),
            0 < n <= h,
            i <= h - n + 1,
            forall|k: int|
                0 <= k < i ==> #[trigger] hay@.subrange(k, k + needle@.len()) != needle@,
        decreases h - i,
    {
        if matches_at(hay, needle, i) {
            return true;
        }
        i += 1;
    }
    false
}

/// Character-wise string equality; what `==` means on the views.
pub fn str_eq(a: &str, b: &str) -> (r: bool)
    ensures
        r == (a@ == b@),
{
    let la = a.unicode_len();
    let lb = b.unicode_len();
    if la != lb {
        return false;
    }
    let r = matches_at(a, b, 0);
    proof {
        assert(a@.subrange(0, a@.len() as int) =~= a@);
    }
    r
}

/// The part of `s` after its last `'/'`; all of `s` when no `'/'` occurs,
/// empty when `s` ends in `'/'`.
pub open spec fn basename_of(s: Seq<char>) -> Seq<char>
    decreases s.len(),
{
    if s.len() == 0 {
        s
    } else if s[s.len() - 1] == '/' {
        Seq::empty()
    } else {
        basename_of(s.drop_last()).push(s[s.len() - 1])
    }
}

proof fn lemma_basename_no_slash(s: Seq<char>)
    requires
        forall|j: int| 0 <= j < s.len() ==> s[j] != '/',
    ensures
        basename_of(s) == s,
    decreases s.len(),
{
    if s.len() == 0 {
    } else {
        lemma_basename_no_slash(s.drop_last());
        assert(basename_of(s.drop_last()).push(s[s.len() - 1]) =~= s);
    }
}

proof fn lemma_basename_suffix(s: Seq<char>, i: int)
    requires
        0 <= i < s.len(),
        s[i] == '/',
        forall|j: int| i < j < s.len() ==> s[j] != '/',
    ensures
        basename_of(s) == s.subrange(i + 1, s.len() as int),
    decreases s.len(),
{
    if i == s.len() - 1 {
        assert(basename_of(s) =~= s.subrange(i + 1, s.len() as int));
    } else {
        lemma_basename_suffix(s.drop_last(), i);
        assert(s.drop_last().subrange(i + 1, s.len() - 1).push(s[s.len() - 1]) =~= s.subrange(
            i + 1,
            s.len() as int,
        ));
    }
}

/// The last path component of `s`; the executable counterpart of
/// [`basename_of`].
pub fn basename(s: &str) -> (r: String)
    ensures
        r@ == basename_of(s@),
{
    let len = s.unicode_len();
    let mut i: usize = len;
    while i > 0
        invariant
            i <= len,
            len == s@.len(),
            forall|j: int| i <= j < len ==> s@[j] != '/',
        decreases i,
    {
        if s.get_char(i - 1) == '/' {
            let r = s.substring_char(i, len);
            proof {
                lemma_basename_suffix(s@, i - 1);
            }
            return r.to_owned();
        }
        i -= 1;
    }
    proof {
        lemma_basename_no_slash(s@);
    }
    s.to_owned()
}

} // verus!
