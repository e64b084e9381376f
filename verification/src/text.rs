//! Verified text helpers for the naming-convention classification:
//! ASCII lowercasing, suffix tests, substring search and trimming.

use vstd::prelude::*;

verus! {

/// Relies on String::push: appends one character.
#[verifier::external_body]
pub fn push_char(s: &mut String, c: char)
    ensures
        final(s)@ == old(s)@.push(c),
{
    s.push(c);
}

/// An ASCII capital letter mapped to its small form; any other character
/// unchanged.
pub open spec fn spec_lower_char(c: char) -> char {
    if 65 <= c as u32 && c as u32 <= 90 {
        ((c as u8) + 32) as char
    } else {
        c
    }
}

/// Every character of `s` mapped by [`spec_lower_char`].
pub open spec fn spec_lower(s: Seq<char>) -> Seq<char> {
    s.map_values(|c: char| spec_lower_char(c))
}

/// Lower one character, ASCII-wise.
pub fn lower_char(c: char) -> (r: char)
    ensures
        r == spec_lower_char(c),
{
    let u = c as u32;
    if 65 <= u && u <= 90 {
        ((c as u8) + 32) as char
    } else {
        c
    }
}

/// The ASCII-lowercased copy of `s`.
pub fn to_ascii_lowercase(s: &str) -> (r: String)
    ensures
        r@ == spec_lower(s@),
{
    let n = s.unicode_len();
    let mut out = String::new();
    let mut i: usize = 0;
    while i < n
        invariant
            i <= n,
            n == s@.len(),
            out@ == spec_lower(s@.take(i as int)),
        decreases n - i,
    {
        push_char(&mut out, lower_char(s.get_char(i)));
        proof {
            assert(s@.take(i as int).push(s@[i as int]) =~= s@.take(i as int + 1));
            assert(spec_lower(s@.take(i as int)).push(spec_lower_char(s@[i as int])) =~= spec_lower(
                s@.take(i as int + 1),
            ));
        }
        i = i + 1;
    }
    proof {
        assert(s@.take(n as int) =~= s@);
    }
    out
}

/// Whether `suf` is a suffix of `s`.
pub fn str_ends_with(s: &str, suf: &str) -> (r: bool)
    ensures
        r == suf@.is_suffix_of(s@),
{
    let n = suf.unicode_len();
    let m = s.unicode_len();
    if n > m {
        return false;
    }
    let mut i: usize = 0;
    while i < n
        invariant
            i <= n,
            n == suf@.len(),
            m == s@.len(),
            n <= m,
            forall|j: int| 0 <= j < i ==> s@[m - n + j] == suf@[j],
        decreases n - i,
    {
        if s.get_char(m - n + i) != suf.get_char(i) {
            proof {
                assert(!suf@.is_suffix_of(s@)) by {
                    assert(s@.subrange(m - n, m as int)[i as int] == s@[m - n + i]);
                }
            }
            return false;
        }
        i = i + 1;
    }
    proof {
        assert(suf@ =~= s@.subrange(m - n, m as int));
    }
    true
}

/// Whether `sub` occupies `s` starting at index `i`.
pub open spec fn spec_occurs_at(s: Seq<char>, sub: Seq<char>, i: int) -> bool {
    0 <= i && i + sub.len() <= s.len() && s.subrange(i, i + sub.len()) == sub
}

/// Whether `sub` occupies `s` starting at `i`.
pub fn occurs_at(s: &str, sub: &str, i: usize) -> (r: bool)
    requires
        i + sub@.len() <= s@.len(),
    ensures
        r == spec_occurs_at(s@, sub@, i as int),
{
    let slen = s.unicode_len();
    let n = sub.unicode_len();
    let mut j: usize = 0;
    while j < n
        invariant
            j <= n,
            n == sub@.len(),
            slen == s@.len(),
            i + n <= slen,
            forall|t: int| 0 <= t < j ==> s@[i + t] == sub@[t],
        decreases n - j,
    {
        if s.get_char(i + j) != sub.get_char(j) {
            proof {
                assert(!spec_occurs_at(s@, sub@, i as int)) by {
                    assert(s@.subrange(i as int, i + n) == sub@ ==> s@.subrange(i as int, i + n)[
                        j as int
                    ] == sub@[j as int]);
                }
            }
            return false;
        }
        j = j + 1;
    }
    proof {
        assert(s@.subrange(i as int, i + n) =~= sub@);
    }
    true
}

/// The start of the last occurrence of `sub` in `s`, or -1 when `sub`
/// occurs nowhere in it.
pub open spec fn spec_rfind_sub(s: Seq<char>, sub: Seq<char>) -> int
    decreases s.len(),
{
    if sub.len() == 0 {
        s.len() as int
    } else if s.len() < sub.len() {
        -1
    } else if spec_occurs_at(s, sub, s.len() - sub.len()) {
        s.len() - sub.len()
    } else {
        spec_rfind_sub(s.drop_last(), sub)
    }
}

/// `spec_rfind_sub` names the last occurrence: an occurrence with none
/// after it.
pub proof fn lemma_rfind_sub(s: Seq<char>, sub: Seq<char>)
    ensures
        -1 <= spec_rfind_sub(s, sub),
        sub.len() == 0 ==> spec_rfind_sub(s, sub) == s.len(),
        spec_rfind_sub(s, sub) >= 0 ==> spec_rfind_sub(s, sub) + sub.len() <= s.len()
            && spec_occurs_at(s, sub, spec_rfind_sub(s, sub)),
        forall|j: int|
            spec_rfind_sub(s, sub) < j <= s.len() - sub.len() && 0 <= j ==> !spec_occurs_at(
                s,
                sub,
                j,
            ),
    decreases s.len(),
{
    if sub.len() == 0 {
        assert(s.subrange(s.len() as int, s.len() as int) =~= sub);
    } else if s.len() < sub.len() {
    } else if spec_occurs_at(s, sub, s.len() - sub.len()) {
    } else {
        lemma_rfind_sub(s.drop_last(), sub);
        let d = s.drop_last();
        assert(spec_rfind_sub(s, sub) == spec_rfind_sub(d, sub));
        if spec_rfind_sub(d, sub) >= 0 {
            let i = spec_rfind_sub(d, sub);
            assert(d.subrange(i, i + sub.len() as int) =~= s.subrange(i, i + sub.len() as int));
        }
        assert forall|j: int|
            spec_rfind_sub(s, sub) < j <= s.len() - sub.len() && 0 <= j implies !spec_occurs_at(
            s,
            sub,
            j,
        ) by {
            if j <= d.len() - sub.len() {
                assert(!spec_occurs_at(d, sub, j));
                assert(d.subrange(j, j + sub.len() as int) =~= s.subrange(
                    j,
                    j + sub.len() as int,
                ));
            }
        }
    }
}

/// The start of the last occurrence of `sub` in `s`.
pub fn rfind_sub(s: &str, sub: &str) -> (r: Option<usize>)
    ensures
        match r {
            Some(i) => i == spec_rfind_sub(s@, sub@),
            None => spec_rfind_sub(s@, sub@) == -1,
        },
{
    proof {
        lemma_rfind_sub(s@, sub@);
    }
    let n = s.unicode_len();
    let m = sub.unicode_len();
    if m == 0 {
        return Some(n);
    }
    if m > n {
        return None;
    }
    let mut i: usize = n - m + 1;
    while i > 0
        invariant
            i <= n - m + 1,
            n == s@.len(),
            m == sub@.len(),
            m <= n,
            forall|j: int| i <= j <= n - m ==> !spec_occurs_at(s@, sub@, j),
        decreases i,
    {
        i = i - 1;
        if occurs_at(s, sub, i) {
            proof {
                lemma_rfind_sub(s@, sub@);
            }
            return Some(i);
        }
    }
    proof {
        lemma_rfind_sub(s@, sub@);
    }
    None
}

/// Whether `sub` occurs anywhere in `s`.
pub fn str_contains(s: &str, sub: &str) -> (r: bool)
    ensures
        r == (spec_rfind_sub(s@, sub@) >= 0),
{
    match rfind_sub(s, sub) {
        Some(_) => true,
        None => false,
    }
}

/// `s` with every leading repetition of `pre` removed.
pub open spec fn spec_trim_start(s: Seq<char>, pre: Seq<char>) -> Seq<char>
    decreases s.len(),
{
    if pre.len() > 0 && pre.is_prefix_of(s) {
        if s.len() == pre.len() {
            Seq::empty()
        } else {
            spec_trim_start(s.skip(pre.len() as int), pre)
        }
    } else {
        s
    }
}

/// Remove every leading repetition of `pre`.
pub fn trim_start_matches<'a>(s: &'a str, pre: &str) -> (r: &'a str)
    ensures
        r@ == spec_trim_start(s@, pre@),
{
    let mut cur: &str = s;
    loop
        invariant
            spec_trim_start(s@, pre@) == spec_trim_start(cur@, pre@),
        decreases cur@.len() + 1,
    {
        if pre.unicode_len() > 0 && crate::pathname::str_starts_with(cur, pre) {
            let next = cur.substring_char(pre.unicode_len(), cur.unicode_len());
            proof {
                assert(next@ =~= cur@.skip(pre@.len() as int));
                if cur@.len() == pre@.len() {
                    assert(next@ =~= Seq::<char>::empty());
                    assert(spec_trim_start(cur@, pre@) =~= spec_trim_start(next@, pre@));
                }
            }
            cur = next;
        } else {
            proof {
                assert(spec_trim_start(cur@, pre@) == cur@);
            }
            return cur;
        }
    }
}

/// `s` with every trailing repetition of `suf` removed.
pub open spec fn spec_trim_end(s: Seq<char>, suf: Seq<char>) -> Seq<char>
    decreases s.len(),
{
    if suf.len() > 0 && suf.is_suffix_of(s) {
        if s.len() == suf.len() {
            Seq::empty()
        } else {
            spec_trim_end(s.take(s.len() - suf.len()), suf)
        }
    } else {
        s
    }
}

/// What the trimming leaves never still ends with the suffix.
pub proof fn lemma_trim_end_no_suffix(s: Seq<char>, suf: Seq<char>)
    requires
        suf.len() > 0,
    ensures
        !suf.is_suffix_of(spec_trim_end(s, suf)),
    decreases s.len(),
{
    if suf.is_suffix_of(s) {
        if s.len() == suf.len() {
        } else {
            lemma_trim_end_no_suffix(s.take(s.len() - suf.len()), suf);
        }
    }
}

/// A string trimmed to nothing by one repeated character consisted of
/// that character alone.
pub proof fn lemma_trim_end_char_all(s: Seq<char>, c: char)
    requires
        spec_trim_end(s, seq![c]).len() == 0,
    ensures
        forall|j: int| 0 <= j < s.len() ==> s[j] == c,
    decreases s.len(),
{
    let suf = seq![c];
    if suf.is_suffix_of(s) {
        assert(s.subrange(s.len() - 1, s.len() as int)[0] == c);
        if s.len() == 1 {
        } else {
            lemma_trim_end_char_all(s.take(s.len() - 1), c);
            assert(forall|j: int| 0 <= j < s.len() - 1 ==> s.take(s.len() - 1)[j] == s[j]);
        }
    } else {
        assert(spec_trim_end(s, suf) == s);
    }
}

/// Remove every trailing repetition of `suf`.
pub fn trim_end_matches<'a>(s: &'a str, suf: &str) -> (r: &'a str)
    ensures
        r@ == spec_trim_end(s@, suf@),
{
    let mut cur: &str = s;
    loop
        invariant
            spec_trim_end(s@, suf@) == spec_trim_end(cur@, suf@),
        decreases cur@.len() + 1,
    {
        if suf.unicode_len() > 0 && str_ends_with(cur, suf) {
            let next = cur.substring_char(0, cur.unicode_len() - suf.unicode_len());
            proof {
                assert(next@ =~= cur@.take(cur@.len() - suf@.len()));
                if cur@.len() == suf@.len() {
                    assert(next@ =~= Seq::<char>::empty());
                    assert(spec_trim_end(cur@, suf@) =~= spec_trim_end(next@, suf@));
                }
            }
            cur = next;
        } else {
            proof {
                assert(spec_trim_end(cur@, suf@) == cur@);
            }
            return cur;
        }
    }
}

} // verus!
