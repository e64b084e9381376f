//! Path values are plain UTF-8 strings with `/` as the separator.
//! This module gives the string-level path operations the rest of the
//! crate builds on: absoluteness, joining, file names, extensions and
//! containment of a path in a directory.

use vstd::prelude::*;

verus! {

/// Index of the first occurrence of `c` in `s`, or -1 when absent.
pub open spec fn spec_find(s: Seq<char>, c: char) -> int
    decreases s.len(),
{
    if s.len() == 0 {
        -1
    } else if s[0] == c {
        0
    } else {
        let r = spec_find(s.drop_first(), c);
        if r == -1 {
            -1
        } else {
            r + 1
        }
    }
}

/// Index of the last occurrence of `c` in `s`, or -1 when absent.
pub open spec fn spec_rfind(s: Seq<char>, c: char) -> int
    decreases s.len(),
{
    if s.len() == 0 {
        -1
    } else if s[s.len() - 1] == c {
        s.len() - 1
    } else {
        spec_rfind(s.drop_last(), c)
    }
}

/// `spec_find` names the first occurrence: an occurrence with none before it.
pub proof fn lemma_find(s: Seq<char>, c: char)
    ensures
        -1 <= spec_find(s, c) < s.len(),
        spec_find(s, c) >= 0 ==> s[spec_find(s, c)] == c,
        forall|j: int| 0 <= j < s.len() && s[j] == c ==> spec_find(s, c) >= 0 && spec_find(s, c) <= j,
    decreases s.len(),
{
    if s.len() == 0 {
    } else if s[0] == c {
    } else {
        lemma_find(s.drop_first(), c);
        assert forall|j: int| 0 <= j < s.len() && s[j] == c implies spec_find(s, c) >= 0
            && spec_find(s, c) <= j by {
            assert(s.drop_first()[j - 1] == s[j]);
        }
    }
}

/// `spec_rfind` names the last occurrence: an occurrence with none after it.
pub proof fn lemma_rfind(s: Seq<char>, c: char)
    ensures
        -1 <= spec_rfind(s, c) < s.len(),
        spec_rfind(s, c) >= 0 ==> s[spec_rfind(s, c)] == c,
        forall|j: int| spec_rfind(s, c) < j < s.len() ==> s[j] != c,
    decreases s.len(),
{
    if s.len() == 0 {
    } else if s[s.len() - 1] == c {
    } else {
        lemma_rfind(s.drop_last(), c);
        assert(forall|j: int| 0 <= j < s.len() - 1 ==> s.drop_last()[j] == s[j]);
    }
}

/// First occurrence of `c` in `s`.
pub fn find(s: &str, c: char) -> (r: Option<usize>)
    ensures
        match r {
            Some(i) => i == spec_find(s@, c),
            None => spec_find(s@, c) == -1,
        },
{
    proof {
        lemma_find(s@, c);
    }
    let n = s.unicode_len();
    let mut i: usize = 0;
    while i < n
        invariant
            i <= n,
            n == s@.len(),
            forall|j: int| 0 <= j < i ==> s@[j] != c,
        decreases n - i,
    {
        if s.get_char(i) == c {
            proof {
                lemma_find(s@, c);
            }
            return Some(i);
        }
        i = i + 1;
    }
    None
}

/// Last occurrence of `c` in `s`.
pub fn rfind(s: &str, c: char) -> (r: Option<usize>)
    ensures
        match r {
            Some(i) => i == spec_rfind(s@, c),
            None => spec_rfind(s@, c) == -1,
        },
{
    proof {
        lemma_rfind(s@, c);
    }
    let n = s.unicode_len();
    let mut i: usize = n;
    while i > 0
        invariant
            i <= n,
            n == s@.len(),
            forall|j: int| i <= j < n ==> s@[j] != c,
        decreases i,
    {
        i = i - 1;
        if s.get_char(i) == c {
            proof {
                lemma_rfind(s@, c);
            }
            return Some(i);
        }
    }
    None
}

/// Whether the characters of `a` and `b` are the same.
pub fn str_eq(a: &str, b: &str) -> (r: bool)
    ensures
        r == (a@ == b@),
{
    let n = a.unicode_len();
    if n != b.unicode_len() {
        return false;
    }
    let mut i: usize = 0;
    while i < n
        invariant
            i <= n,
            n == a@.len(),
            n == b@.len(),
            forall|j: int| 0 <= j < i ==> a@[j] == b@[j],
        decreases n - i,
    {
        if a.get_char(i) != b.get_char(i) {
            return false;
        }
        i = i + 1;
    }
    proof {
        assert(a@ =~= b@);
    }
    true
}

/// Whether `pre` is a prefix of `s`.
pub fn str_starts_with(s: &str, pre: &str) -> (r: bool)
    ensures
        r == pre@.is_prefix_of(s@),
{
    let n = pre.unicode_len();
    if n > s.unicode_len() {
        return false;
    }
    let mut i: usize = 0;
    while i < n
        invariant
            i <= n,
            n == pre@.len(),
            n <= s@.len(),
            forall|j: int| 0 <= j < i ==> s@[j] == pre@[j],
        decreases n - i,
    {
        if s.get_char(i) != pre.get_char(i) {
            proof {
                assert(!pre@.is_prefix_of(s@)) by {
                    assert(s@.subrange(0, pre@.len() as int)[i as int] == s@[i as int]);
                }
            }
            return false;
        }
        i = i + 1;
    }
    proof {
        assert(pre@ =~= s@.subrange(0, pre@.len() as int));
    }
    true
}

/// A path is absolute when it starts with the separator.
pub open spec fn spec_is_absolute(p: Seq<char>) -> bool {
    p.len() > 0 && p[0] == '/'
}

/// Whether `p` names an absolute path.
pub fn is_absolute(p: &str) -> (r: bool)
    ensures
        r == spec_is_absolute(p@),
{
    if p.unicode_len() == 0 {
        false
    } else {
        p.get_char(0) == '/'
    }
}

/// `rel` when it is absolute; otherwise `base` and `rel` with a single
/// separator between them.
pub open spec fn spec_join(base: Seq<char>, rel: Seq<char>) -> Seq<char> {
    if spec_is_absolute(rel) {
        rel
    } else if base.len() == 0 {
        rel
    } else if base[base.len() - 1] == '/' {
        base + rel
    } else {
        base + seq!['/'] + rel
    }
}

/// Join a relative path onto a base directory.
pub fn join(base: &str, rel: &str) -> (r: String)
    ensures
        r@ == spec_join(base@, rel@),
{
    if is_absolute(rel) {
        return rel.to_owned();
    }
    let n = base.unicode_len();
    if n == 0 {
        return rel.to_owned();
    }
    let mut out = base.to_owned();
    if base.get_char(n - 1) != '/' {
        out.append("/");
        proof {
            reveal_strlit("/");
            assert("/"@ =~= seq!['/']);
        }
    }
    out.append(rel);
    proof {
        assert(out@ =~= spec_join(base@, rel@));
    }
    out
}

/// The part of `p` after its last separator; the whole of `p` when it
/// has none.
pub open spec fn spec_file_name(p: Seq<char>) -> Seq<char> {
    p.subrange(spec_rfind(p, '/') + 1, p.len() as int)
}

/// Final component of a path.
pub fn file_name(p: &str) -> (r: &str)
    ensures
        r@ == spec_file_name(p@),
{
    proof {
        lemma_rfind(p@, '/');
    }
    let n = p.unicode_len();
    match rfind(p, '/') {
        Some(i) => p.substring_char(i + 1, n),
        None => p.substring_char(0, n),
    }
}

/// The extension of a path: what follows the last dot of the final
/// component, provided that dot is not the component's first character.
pub open spec fn spec_extension(p: Seq<char>) -> Option<Seq<char>> {
    let name = spec_file_name(p);
    let k = spec_rfind(name, '.');
    if k <= 0 {
        None
    } else {
        Some(name.subrange(k + 1, name.len() as int))
    }
}

/// Extension of a path, without the dot.
pub fn extension(p: &str) -> (r: Option<String>)
    ensures
        match r {
            Some(e) => spec_extension(p@) == Some(e@),
            None => spec_extension(p@) is None,
        },
{
    let name = file_name(p);
    proof {
        lemma_rfind(name@, '.');
    }
    let n = name.unicode_len();
    match rfind(name, '.') {
        Some(k) if k > 0 => Some(name.substring_char(k + 1, n).to_owned()),
        _ => None,
    }
}

/// The final component of `p` without its extension.
pub open spec fn spec_file_stem(p: Seq<char>) -> Seq<char> {
    let name = spec_file_name(p);
    let k = spec_rfind(name, '.');
    if k <= 0 {
        name
    } else {
        name.subrange(0, k)
    }
}

/// Final component of a path, without its extension.
pub fn file_stem(p: &str) -> (r: &str)
    ensures
        r@ == spec_file_stem(p@),
{
    let name = file_name(p);
    proof {
        lemma_rfind(name@, '.');
    }
    match rfind(name, '.') {
        Some(k) if k > 0 => name.substring_char(0, k),
        _ => name,
    }
}

/// The parts of `s` between its separators, in order. A leading,
/// trailing or doubled separator contributes an empty part.
pub open spec fn spec_segments(s: Seq<char>) -> Seq<Seq<char>>
    decreases s.len(),
{
    let k = spec_find(s, '/');
    if k < 0 {
        seq![s]
    } else {
        proof {
            lemma_find(s, '/');
        }
        seq![s.subrange(0, k)] + spec_segments(s.subrange(k + 1, s.len() as int))
    }
}

/// The components a path normalizes to: empty parts and `.` are passed
/// over, `..` removes the component before it when there is one, and any
/// other part stands.
pub open spec fn spec_norm_stack(segs: Seq<Seq<char>>) -> Seq<Seq<char>>
    decreases segs.len(),
{
    if segs.len() == 0 {
        Seq::empty()
    } else {
        let rest = spec_norm_stack(segs.drop_last());
        let last = segs.last();
        if last.len() == 0 || last == "."@ {
            rest
        } else if last == ".."@ {
            if rest.len() > 0 {
                rest.drop_last()
            } else {
                rest
            }
        } else {
            rest.push(last)
        }
    }
}

/// The parts joined with single separators.
pub open spec fn spec_unsplit(parts: Seq<Seq<char>>) -> Seq<char>
    decreases parts.len(),
{
    if parts.len() == 0 {
        Seq::empty()
    } else if parts.len() == 1 {
        parts[0]
    } else {
        spec_unsplit(parts.drop_last()) + seq!['/'] + parts.last()
    }
}

/// The normalized form of a path: its components folded by
/// [`spec_norm_stack`] and joined again, keeping a leading separator.
pub open spec fn spec_normalize(p: Seq<char>) -> Seq<char> {
    let joined = spec_unsplit(spec_norm_stack(spec_segments(p)));
    if spec_is_absolute(p) {
        seq!['/'] + joined
    } else {
        joined
    }
}

/// Normalize a path without consulting the filesystem: collapse repeated
/// separators, drop `.` components, and let `..` consume the component
/// before it.
#[verifier::loop_isolation(false)]
pub fn normalize_path(path: &str) -> (r: String)
    ensures
        r@ == spec_normalize(path@),
{
    let mut segs: Vec<String> = Vec::new();
    let mut rest: &str = path;
    loop
        invariant
            spec_segments(path@) == segs.deep_view() + spec_segments(rest@),
        decreases rest@.len(),
    {
        let ghost dv = segs.deep_view();
        proof {
            lemma_find(rest@, '/');
        }
        match find(rest, '/') {
            None => {
                segs.push(rest.to_owned());
                proof {
                    assert(segs.deep_view() =~= dv.push(rest@));
                    assert(dv.push(rest@) + Seq::<Seq<char>>::empty() =~= segs.deep_view());
                    assert(dv + seq![rest@] =~= dv.push(rest@));
                }
                break ;
            },
            Some(k) => {
                let n = rest.unicode_len();
                let head = rest.substring_char(0, k);
                let tail = rest.substring_char(k + 1, n);
                segs.push(head.to_owned());
                proof {
                    assert(segs.deep_view() =~= dv.push(head@));
                    assert(dv + (seq![head@] + spec_segments(tail@)) =~= dv.push(head@)
                        + spec_segments(tail@));
                }
                rest = tail;
            },
        }
    }
    let ghost all = spec_segments(path@);
    proof {
        assert(all =~= segs.deep_view() + Seq::<Seq<char>>::empty());
        assert(all =~= segs.deep_view());
        assert(spec_norm_stack(all.take(0)) =~= Seq::<Seq<char>>::empty());
    }
    let m = segs.len();
    let mut stack: Vec<String> = Vec::new();
    let mut i: usize = 0;
    while i < m
        invariant
            i <= m,
            m == segs@.len(),
            all == segs.deep_view(),
            stack.deep_view() == spec_norm_stack(all.take(i as int)),
        decreases m - i,
    {
        let ghost sv = stack.deep_view();
        proof {
            assert(all.take(i as int + 1).drop_last() =~= all.take(i as int));
            assert(all.take(i as int + 1).last() == segs@[i as int]@);
        }
        let sg = &segs[i];
        if sg.as_str().unicode_len() == 0 || str_eq(sg.as_str(), ".") {
        } else if str_eq(sg.as_str(), "..") {
            let popped = stack.pop();
            proof {
                if sv.len() > 0 {
                    assert(stack.deep_view() =~= sv.drop_last());
                } else {
                    assert(stack.deep_view() =~= sv);
                }
            }
        } else {
            stack.push(sg.clone());
            proof {
                assert(stack.deep_view() =~= sv.push(segs@[i as int]@));
            }
        }
        i = i + 1;
    }
    proof {
        assert(all.take(m as int) =~= all);
    }
    let parts = stack;
    let ghost pv = spec_norm_stack(all);
    let mut out: String = if is_absolute(path) {
        "/".to_owned()
    } else {
        String::new()
    };
    let ghost prefix = out@;
    proof {
        reveal_strlit("/");
        assert("/"@ =~= seq!['/']);
        assert(spec_is_absolute(path@) ==> prefix =~= seq!['/']);
        assert(!spec_is_absolute(path@) ==> prefix =~= Seq::<char>::empty());
    }
    let c = parts.len();
    let mut j: usize = 0;
    while j < c
        invariant
            j <= c,
            c == parts@.len(),
            pv == parts.deep_view(),
            out@ == prefix + spec_unsplit(pv.take(j as int)),
        decreases c - j,
    {
        proof {
            assert(pv.take(j as int + 1).drop_last() =~= pv.take(j as int));
            assert(pv.take(j as int + 1).last() == parts@[j as int]@);
        }
        if j > 0 {
            out.append("/");
        }
        out.append(parts[j].as_str());
        proof {
            if j == 0 {
                assert(spec_unsplit(pv.take(1)) == pv.take(1)[0]);
                assert(out@ =~= prefix + spec_unsplit(pv.take(1)));
            } else {
                assert(out@ =~= prefix + spec_unsplit(pv.take(j as int + 1)));
            }
        }
        j = j + 1;
    }
    proof {
        assert(pv.take(c as int) =~= pv);
        if c == 0 {
            assert(spec_unsplit(pv.take(0)) =~= Seq::<char>::empty());
            assert(out@ =~= prefix);
        }
        assert(out@ =~= spec_normalize(path@));
    }
    out
}

/// Whether `p` is the directory `dir` itself or lies underneath it.
pub open spec fn spec_contained_in(p: Seq<char>, dir: Seq<char>) -> bool {
    p == dir || (dir + seq!['/']).is_prefix_of(p) || (dir.len() > 0 && dir[dir.len() - 1] == '/'
        && dir.is_prefix_of(p))
}

/// Whether the path `p` equals `dir` or is nested under it.
pub fn contained_in(p: &str, dir: &str) -> (r: bool)
    ensures
        r == spec_contained_in(p@, dir@),
{
    if str_eq(p, dir) {
        return true;
    }
    let n = dir.unicode_len();
    if n > 0 && dir.get_char(n - 1) == '/' {
        if str_starts_with(p, dir) {
            return true;
        }
    }
    let with_sep = dir.to_owned().concat("/");
    proof {
        reveal_strlit("/");
        assert("/"@ =~= seq!['/']);
    }
    str_starts_with(p, with_sep.as_str())
}

} // verus!
