//! Character and string helpers shared by the whole pipeline: whitespace
//! trimming, prefix tests, and the letter-case test that tells a type
//! heading from a method heading.

use vstd::prelude::*;

verus! {

/// The whitespace characters recognized when trimming cell and item text.
pub open spec fn is_space(c: char) -> bool {
    c == ' ' || c == '\t' || c == '\n' || c == '\r'
}

/// An ASCII capital letter: the mark of a type declaration's heading.
pub open spec fn is_upper(c: char) -> bool {
    65 <= c as u32 && c as u32 <= 90
}

/// An ASCII small letter: the mark of a method declaration's heading.
pub open spec fn is_lower(c: char) -> bool {
    97 <= c as u32 && c as u32 <= 122
}

/// The text starts with an ASCII capital letter.
pub open spec fn upper_led(s: Seq<char>) -> bool {
    s.len() > 0 && is_upper(s[0])
}

/// The text starts with an ASCII small letter.
pub open spec fn lower_led(s: Seq<char>) -> bool {
    s.len() > 0 && is_lower(s[0])
}

/// The text holds at least one whitespace character.
pub open spec fn has_space(s: Seq<char>) -> bool {
    exists|i: int| 0 <= i < s.len() && is_space(s[i])
}

/// `p` stands at the start of `s`.
pub open spec fn is_prefix(p: Seq<char>, s: Seq<char>) -> bool {
    p.len() <= s.len() && s.take(p.len() as int) == p
}

/// The text with its leading whitespace removed.
pub open spec fn trim_left(s: Seq<char>) -> Seq<char>
    decreases s.len(),
{
    if s.len() > 0 && is_space(s[0]) {
        trim_left(s.drop_first())
    } else {
        s
    }
}

/// The text with its trailing whitespace removed.
pub open spec fn trim_right(s: Seq<char>) -> Seq<char>
    decreases s.len(),
{
    if s.len() > 0 && is_space(s.last()) {
        trim_right(s.drop_last())
    } else {
        s
    }
}

/// The text with whitespace removed from both ends.
pub open spec fn trim(s: Seq<char>) -> Seq<char> {
    trim_right(trim_left(s))
}

pub proof fn lemma_trim_left_len(s: Seq<char>)
    ensures
        trim_left(s).len() <= s.len(),
    decreases s.len(),
{
    if s.len() > 0 && is_space(s[0]) {
        lemma_trim_left_len(s.drop_first());
    }
}

pub proof fn lemma_trim_right_len(s: Seq<char>)
    ensures
        trim_right(s).len() <= s.len(),
    decreases s.len(),
{
    if s.len() > 0 && is_space(s.last()) {
        lemma_trim_right_len(s.drop_last());
    }
}

pub proof fn lemma_trim_len(s: Seq<char>)
    ensures
        trim(s).len() <= s.len(),
{
    lemma_trim_left_len(s);
    lemma_trim_right_len(trim_left(s));
}

/// Two string slices hold the same characters.
pub fn str_eq(a: &str, b: &str) -> (r: bool)
    ensures
        r == (a@ == b@),
{
    let alen: usize = a.unicode_len();
    let blen: usize = b.unicode_len();
    if alen != blen {
        proof {
            assert(a@ != b@);
        }
        return false;
    }
    let mut i: usize = 0;
    while i < alen
        invariant
            alen == a@.len(),
            alen == b@.len(),
            i <= alen,
            forall|j: int| 0 <= j < i ==> a@[j] == b@[j],
        decreases alen - i,
    {
        if a.get_char(i) != b.get_char(i) {
            return false;
        }
        i += 1;
    }
    proof {
        assert(a@ =~= b@);
    }
    true
}

/// One character is a recognized whitespace character.
pub fn is_space_char(c: char) -> (r: bool)
    ensures
        r == is_space(c),
{
    c == ' ' || c == '\t' || c == '\n' || c == '\r'
}

/// The text starts with an ASCII capital letter.
pub fn head_is_upper(s: &str) -> (r: bool)
    ensures
        r == upper_led(s@),
{
    if s.unicode_len() == 0 {
        return false;
    }
    let u: u32 = s.get_char(0) as u32;
    65 <= u && u <= 90
}

/// The text starts with an ASCII small letter.
pub fn head_is_lower(s: &str) -> (r: bool)
    ensures
        r == lower_led(s@),
{
    if s.unicode_len() == 0 {
        return false;
    }
    let u: u32 = s.get_char(0) as u32;
    97 <= u && u <= 122
}

/// The text holds at least one whitespace character.
pub fn contains_space(s: &str) -> (r: bool)
    ensures
        r == has_space(s@),
{
    let n: usize = s.unicode_len();
    let mut i: usize = 0;
    while i < n
        invariant
            n == s@.len(),
            i <= n,
            forall|j: int| 0 <= j < i ==> !is_space(s@[j]),
        decreases n - i,
    {
        if is_space_char(s.get_char(i)) {
            return true;
        }
        i += 1;
    }
    false
}

/// `s` starts with the characters of `p`.
pub fn starts_with(s: &str, p: &str) -> (r: bool)
    ensures
        r == is_prefix(p@, s@),
{
    let plen: usize = p.unicode_len();
    let slen: usize = s.unicode_len();
    if plen > slen {
        return false;
    }
    str_eq(s.substring_char(0, plen), p)
}

/// `s` with whitespace removed from both ends.
pub fn trim_str(s: &str) -> (r: String)
    ensures
        r@ == trim(s@),
{
    let n: usize = s.unicode_len();
    proof {
        assert(s@.skip(0) =~= s@);
    }
    let mut i: usize = 0;
    while i < n && is_space_char(s.get_char(i))
        invariant
            n == s@.len(),
            i <= n,
            trim_left(s@) == trim_left(s@.skip(i as int)),
        decreases n - i,
    {
        proof {
            assert(s@.skip(i as int).drop_first() =~= s@.skip(i + 1));
        }
        i += 1;
    }
    proof {
        // the remainder starts with a non-space character, or is empty
        assert(trim_left(s@) =~= s@.skip(i as int));
    }
    let mut j: usize = n;
    while j > i && is_space_char(s.get_char(j - 1))
        invariant
            n == s@.len(),
            i <= j <= n,
            trim_left(s@) == s@.skip(i as int),
            trim_right(s@.skip(i as int)) == trim_right(s@.subrange(i as int, j as int)),
        decreases j,
    {
        proof {
            assert(s@.subrange(i as int, j as int).drop_last() =~= s@.subrange(
                i as int,
                j - 1,
            ));
        }
        j -= 1;
    }
    proof {
        assert(trim_right(s@.subrange(i as int, j as int)) =~= s@.subrange(i as int, j as int));
    }
    s.substring_char(i, j).to_owned()
}

} // verus!
