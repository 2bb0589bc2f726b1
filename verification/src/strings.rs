//! Small executable helpers over strings: character-wise equality,
//! appending a single character, and ASCII trimming.

use vstd::prelude::*;
use vstd::string::StrSliceExecFns;

verus! {

/// Character-wise equality of two string slices.
pub fn str_eq(a: &str, b: &str) -> (r: bool)
    ensures
        r <==> a@ == b@,
{
    let alen: usize = a.unicode_len();
    let blen: usize = b.unicode_len();
    if alen != blen {
        assert(a@.len() != b@.len());
        return false;
    }
    let mut i: usize = 0;
    while i < alen
        invariant
            i <= alen,
            alen == a@.len(),
            alen == b@.len(),
            forall|j: int| 0 <= j < i ==> a@[j] == b@[j],
        decreases alen - i,
    {
        if a.get_char(i) != b.get_char(i) {
            assert(a@[i as int] != b@[i as int]);
            return false;
        }
        i = i + 1;
    }
    proof {
        assert(a@ =~= b@);
    }
    true
}

/// Relies on `String::push`: appends exactly the given character.
#[verifier::external_body]
pub fn push_char(s: &mut String, c: char)
    ensures
        final(s)@ == old(s)@ + seq![c],
{
    s.push(c);
}

/// A character the trimming of prompt answers removes: blank, tab,
/// carriage return or newline.
pub open spec fn is_blank(c: char) -> bool {
    c == ' ' || c == '\t' || c == '\r' || c == '\n'
}

pub fn is_blank_exec(c: char) -> (r: bool)
    ensures
        r == is_blank(c),
{
    c == ' ' || c == '\t' || c == '\r' || c == '\n'
}

/// The given sequence without leading and trailing blanks.
pub open spec fn trimmed(s: Seq<char>) -> Seq<char>
    decreases s.len(),
{
    if s.len() == 0 {
        s
    } else if is_blank(s[0]) {
        trimmed(s.drop_first())
    } else if is_blank(s[s.len() - 1]) {
        trimmed(s.drop_last())
    } else {
        s
    }
}

/// A copy of the argument without leading and trailing blanks.
pub fn trim_blanks(s: &str) -> (r: String)
    ensures
        r@ == trimmed(s@),
{
    let len: usize = s.unicode_len();
    let mut lo: usize = 0;
    let mut hi: usize = len;
    proof {
        assert(s@.subrange(0, len as int) =~= s@);
    }
    while lo < hi && is_blank_exec(s.get_char(lo))
        invariant
            0 <= lo <= hi <= len,
            len == s@.len(),
            trimmed(s@) == trimmed(s@.subrange(lo as int, hi as int)),
            hi == len,
        decreases hi - lo,
    {
        proof {
            lemma_trim_drop_first(s@.subrange(lo as int, hi as int));
            assert(s@.subrange(lo as int, hi as int).drop_first() =~= s@.subrange(
                lo as int + 1,
                hi as int,
            ));
        }
        lo = lo + 1;
    }
    while lo < hi && is_blank_exec(s.get_char(hi - 1))
        invariant
            0 <= lo <= hi <= len,
            len == s@.len(),
            trimmed(s@) == trimmed(s@.subrange(lo as int, hi as int)),
            lo < hi ==> !is_blank(s@[lo as int]),
        decreases hi - lo,
    {
        proof {
            lemma_trim_drop_last(s@.subrange(lo as int, hi as int));
            assert(s@.subrange(lo as int, hi as int).drop_last() =~= s@.subrange(
                lo as int,
                hi as int - 1,
            ));
        }
        hi = hi - 1;
    }
    let sub = s.substring_char(lo, hi);
    proof {
        lemma_trim_of_trim_free(s@.subrange(lo as int, hi as int));
    }
    sub.to_owned()
}

proof fn lemma_trim_drop_first(s: Seq<char>)
    requires
        s.len() > 0,
        is_blank(s[0]),
    ensures
        trimmed(s) == trimmed(s.drop_first()),
{
}

proof fn lemma_trim_drop_last(s: Seq<char>)
    requires
        s.len() > 0,
        !is_blank(s[0]),
        is_blank(s[s.len() - 1]),
    ensures
        trimmed(s) == trimmed(s.drop_last()),
{
}

proof fn lemma_trim_of_trim_free(s: Seq<char>)
    requires
        s.len() > 0 ==> !is_blank(s[0]),
        s.len() > 0 ==> !is_blank(s[s.len() - 1]),
    ensures
        trimmed(s) == s,
{
}

} // verus!
