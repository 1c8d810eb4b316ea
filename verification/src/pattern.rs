//! Case-insensitive glob matching with `*` as wildcard, and the character
//! search primitives it is built on. The styling rules, the app-color lookup
//! and the history search all match text through this module.

use vstd::prelude::*;
use vstd::string::StrSliceExecFns;

verus! {

/// What `str::to_lowercase` returns for a sequence of characters: its
/// lowercase form, a function of the characters alone.
pub uninterp spec fn lower_of(s: Seq<char>) -> Seq<char>;

/// Relies on `str::to_lowercase`: the returned string is the lowercase
/// equivalent of the input and depends on the input characters alone; an
/// empty string stays empty.
#[verifier::external_body]
pub(crate) fn lowercase(s: &str) -> (r: String)
    ensures
        r@ == lower_of(s@),
        s@.len() == 0 ==> r@.len() == 0,
{
    s.to_lowercase()
}

/// The characters of a string slice, collected into a vector.
pub(crate) fn chars_vec(s: &str) -> (r: Vec<char>)
    ensures
        r@ == s@,
{
    let n = s.unicode_len();
    let mut r: Vec<char> = Vec::new();
    let mut i: usize = 0;
    while i < n
        invariant
            n == s@.len(),
            i <= n,
            r@ == s@.take(i as int),
        decreases n - i,
    {
        let c = s.get_char(i);
        r.push(c);
        assert(s@.take(i as int).push(s@[i as int]) =~= s@.take(i + 1 as int));
        i = i + 1;
    }
    assert(s@.take(n as int) =~= s@);
    r
}

/// Whether `p` is a prefix of `v`.
pub open spec fn spec_starts_with(v: Seq<char>, p: Seq<char>) -> bool {
    p.len() <= v.len() && v.subrange(0, p.len() as int) == p
}

/// Whether `p` is a suffix of `v`.
pub open spec fn spec_ends_with(v: Seq<char>, p: Seq<char>) -> bool {
    p.len() <= v.len() && v.subrange(v.len() - p.len(), v.len() as int) == p
}

/// The first position at or after `from` where `needle` occurs in `hay`, if
/// any.
pub open spec fn spec_find(hay: Seq<char>, needle: Seq<char>, from: int) -> Option<int>
    decreases hay.len() - from,
{
    if from < 0 || from + needle.len() > hay.len() {
        None
    } else if needle.len() == 0 {
        Some(from)
    } else if hay.subrange(from, from + needle.len()) == needle {
        Some(from)
    } else {
        spec_find(hay, needle, from + 1)
    }
}

/// Whether `needle` occurs anywhere in `hay`.
pub open spec fn spec_contains(hay: Seq<char>, needle: Seq<char>) -> bool {
    spec_find(hay, needle, 0) is Some
}

/// A found position lies between `from` and the end of `hay`, and `needle`
/// indeed occurs there.
pub proof fn lemma_find_found(hay: Seq<char>, needle: Seq<char>, from: int)
    requires
        spec_find(hay, needle, from) is Some,
    ensures
        from <= spec_find(hay, needle, from)->Some_0,
        spec_find(hay, needle, from)->Some_0 + needle.len() <= hay.len(),
        hay.subrange(
            spec_find(hay, needle, from)->Some_0,
            spec_find(hay, needle, from)->Some_0 + needle.len(),
        ) == needle,
    decreases hay.len() - from,
{
    if !(from < 0 || from + needle.len() > hay.len()) && needle.len() != 0
        && hay.subrange(from, from + needle.len()) != needle {
        lemma_find_found(hay, needle, from + 1);
    }
    if spec_find(hay, needle, from) == Some(from) && needle.len() == 0 {
        assert(hay.subrange(from, from + needle.len()) =~= needle);
    }
}

/// Whether the characters of `needle` appear in `hay` starting at `at`.
fn occurs_at(hay: &Vec<char>, needle: &Vec<char>, at: usize) -> (r: bool)
    requires
        at + needle@.len() <= hay@.len(),
    ensures
        r == (hay@.subrange(at as int, at + needle@.len()) == needle@),
{
    let n = needle.len();
    let hn = hay.len();
    let mut j: usize = 0;
    while j < n
        invariant
            n == needle@.len(),
            hn == hay@.len(),
            at + n <= hn,
            j <= n,
            forall|k: int| 0 <= k < j ==> hay@[at + k] == needle@[k],
        decreases n - j,
    {
        if hay[at + j] != needle[j] {
            assert(hay@.subrange(at as int, at + needle@.len())[j as int] == hay@[at + j]);
            return false;
        }
        j = j + 1;
    }
    assert(hay@.subrange(at as int, at + needle@.len()) =~= needle@);
    true
}

/// Whether two character vectors hold the same characters.
pub(crate) fn chars_eq(a: &Vec<char>, b: &Vec<char>) -> (r: bool)
    ensures
        r == (a@ == b@),
{
    if a.len() != b.len() {
        return false;
    }
    let r = occurs_at(a, b, 0);
    assert(a@.subrange(0, b@.len() as int) =~= a@);
    r
}

/// Whether `p` is a prefix of `v`.
fn starts_with_chars(v: &Vec<char>, p: &Vec<char>) -> (r: bool)
    ensures
        r == spec_starts_with(v@, p@),
{
    if p.len() > v.len() {
        return false;
    }
    occurs_at(v, p, 0)
}

/// Whether `p` is a suffix of `v`.
fn ends_with_chars(v: &Vec<char>, p: &Vec<char>) -> (r: bool)
    ensures
        r == spec_ends_with(v@, p@),
{
    if p.len() > v.len() {
        return false;
    }
    occurs_at(v, p, v.len() - p.len())
}

/// The first position at or after `from` where `needle` occurs in `hay`.
pub(crate) fn find_chars(hay: &Vec<char>, needle: &Vec<char>, from: usize) -> (r: Option<usize>)
    ensures
        match r {
            Some(i) => spec_find(hay@, needle@, from as int) == Some(i as int),
            None => spec_find(hay@, needle@, from as int) is None,
        },
{
    if from > hay.len() {
        return None;
    }
    let hn = hay.len();
    let mut i: usize = from;
    while i <= hn
        invariant
            hn == hay@.len(),
            from <= i <= hn + 1,
            spec_find(hay@, needle@, from as int) == spec_find(hay@, needle@, i as int),
        decreases hn + 1 - i,
    {
        if needle.len() > hn - i {
            return None;
        }
        if occurs_at(hay, needle, i) {
            return Some(i);
        }
        assert(needle@.len() > 0) by {
            if needle@.len() == 0 {
                assert(hay@.subrange(i as int, i as int) =~= needle@);
            }
        }
        i = i + 1;
    }
    None
}

/// Whether `needle` occurs anywhere in `hay`.
pub(crate) fn contains_chars(hay: &Vec<char>, needle: &Vec<char>) -> (r: bool)
    ensures
        r == spec_contains(hay@, needle@),
{
    find_chars(hay, needle, 0).is_some()
}

/// Whether the character `c` occurs in `v`.
fn contains_char(v: &Vec<char>, c: char) -> (r: bool)
    ensures
        r == v@.contains(c),
{
    let n = v.len();
    let mut i: usize = 0;
    while i < n
        invariant
            n == v@.len(),
            i <= n,
            forall|k: int| 0 <= k < i ==> v@[k] != c,
        decreases n - i,
    {
        if v[i] == c {
            return true;
        }
        i = i + 1;
    }
    false
}

/// The pattern split on `*`: the `*`-free segments, in order. A leading,
/// trailing or doubled `*` yields an empty segment, as `str::split` does.
pub open spec fn spec_split_star(p: Seq<char>) -> Seq<Seq<char>>
    decreases p.len(),
{
    if p.len() == 0 {
        seq![Seq::<char>::empty()]
    } else if p[0] == '*' {
        seq![Seq::<char>::empty()] + spec_split_star(p.drop_first())
    } else {
        let rest = spec_split_star(p.drop_first());
        seq![seq![p[0]] + rest[0]] + rest.drop_first()
    }
}

/// Splitting always yields at least one segment.
pub proof fn lemma_split_star_len(p: Seq<char>)
    ensures
        spec_split_star(p).len() >= 1,
    decreases p.len(),
{
    if p.len() > 0 {
        lemma_split_star_len(p.drop_first());
    }
}

/// Splits a pattern on `*`.
fn split_star(p: &Vec<char>) -> (r: Vec<Vec<char>>)
    ensures
        r@.map_values(|x: Vec<char>| x@) == spec_split_star(p@),
        r@.len() >= 1,
{
    let ghost whole = p@;
    let n = p.len();
    let mut done: Vec<Vec<char>> = Vec::new();
    let mut cur: Vec<char> = Vec::new();
    let mut i: usize = 0;
    proof {
        lemma_split_star_len(whole);
        let s = spec_split_star(whole);
        assert(whole.skip(0) =~= whole);
        assert(cur@ + s[0] =~= s[0]);
        assert(done@.map_values(|x: Vec<char>| x@) =~= Seq::<Seq<char>>::empty());
        assert(s =~= done@.map_values(|x: Vec<char>| x@) + seq![cur@ + s[0]] + s.drop_first());
    }
    while i < n
        invariant
            n == whole.len(),
            whole == p@,
            i <= n,
            spec_split_star(whole.skip(i as int)).len() >= 1,
            spec_split_star(whole) == done@.map_values(|x: Vec<char>| x@) + seq![
                cur@ + spec_split_star(whole.skip(i as int))[0],
            ] + spec_split_star(whole.skip(i as int)).drop_first(),
        decreases n - i,
    {
        let ghost pre = whole.skip(i as int);
        let ghost post = whole.skip(i + 1 as int);
        proof {
            lemma_split_star_len(post);
            assert(pre.drop_first() =~= post);
            assert(pre[0] == whole[i as int]);
        }
        if p[i] == '*' {
            let ghost old_done = done@;
            let ghost old_cur = cur@;
            done.push(cur);
            cur = Vec::new();
            proof {
                assert(spec_split_star(pre) == seq![Seq::<char>::empty()] + spec_split_star(post));
                assert(old_cur + spec_split_star(pre)[0] =~= old_cur);
                assert(done@.map_values(|x: Vec<char>| x@) =~= old_done.map_values(
                    |x: Vec<char>| x@,
                ).push(old_cur));
                assert(spec_split_star(whole) =~= done@.map_values(|x: Vec<char>| x@) + seq![
                    cur@ + spec_split_star(post)[0],
                ] + spec_split_star(post).drop_first());
            }
        } else {
            let c = p[i];
            let ghost old_cur = cur@;
            cur.push(c);
            proof {
                let rest = spec_split_star(post);
                assert(spec_split_star(pre) == seq![seq![pre[0]] + rest[0]] + rest.drop_first());
                assert(spec_split_star(pre)[0] == seq![pre[0]] + rest[0]);
                assert(spec_split_star(pre).drop_first() =~= rest.drop_first());
                assert(cur@ =~= old_cur.push(c));
                assert(old_cur + spec_split_star(pre)[0] =~= cur@ + rest[0]);
                assert(spec_split_star(whole) =~= done@.map_values(|x: Vec<char>| x@) + seq![
                    cur@ + rest[0],
                ] + rest.drop_first());
            }
        }
        i = i + 1;
    }
    proof {
        assert(whole.skip(n as int) =~= Seq::<char>::empty());
        assert(spec_split_star(Seq::<char>::empty()) == seq![Seq::<char>::empty()]);
        assert(cur@ + spec_split_star(whole.skip(n as int))[0] =~= cur@);
    }
    let ghost old_done = done@;
    done.push(cur);
    proof {
        assert(done@.map_values(|x: Vec<char>| x@) =~= old_done.map_values(|x: Vec<char>| x@).push(
            cur@,
        ));
        assert(spec_split_star(whole) =~= done@.map_values(|x: Vec<char>| x@));
    }
    done
}

/// Greedy segment chaining: each non-empty segment must occur in `v` at or
/// after `pos`, and the search for the next segment resumes right after the
/// first occurrence of the previous one.
pub open spec fn spec_chain(parts: Seq<Seq<char>>, v: Seq<char>, pos: int) -> bool
    decreases parts.len(),
{
    if parts.len() == 0 {
        true
    } else if parts[0].len() == 0 {
        spec_chain(parts.drop_first(), v, pos)
    } else {
        match spec_find(v, parts[0], pos) {
            Some(i) => spec_chain(parts.drop_first(), v, i + parts[0].len()),
            None => false,
        }
    }
}

/// Glob matching on already-lowercased character sequences. A pattern without
/// `*` demands equality; `*suffix`, `prefix*` and `prefix*suffix` are
/// anchored checks; `*middle*` is a containment check; any other shape chains
/// its segments greedily in order.
pub open spec fn spec_glob(p: Seq<char>, v: Seq<char>) -> bool {
    if !p.contains('*') {
        p == v
    } else {
        let parts = spec_split_star(p);
        if parts.len() == 2 {
            if parts[0].len() == 0 {
                spec_ends_with(v, parts[1])
            } else if parts[1].len() == 0 {
                spec_starts_with(v, parts[0])
            } else {
                spec_starts_with(v, parts[0]) && spec_ends_with(v, parts[1])
            }
        } else if parts.len() == 3 && parts[0].len() == 0 && parts[2].len() == 0 {
            spec_contains(v, parts[1])
        } else {
            spec_chain(parts, v, 0)
        }
    }
}

/// Checks if a value matches a glob-style pattern (case-insensitive).
/// Supports `*` as wildcard.
pub fn glob_match(pattern: &str, value: &str) -> (r: bool)
    ensures
        r == spec_glob(lower_of(pattern@), lower_of(value@)),
{
    let pl = lowercase(pattern);
    let vl = lowercase(value);
    let pv = chars_vec(pl.as_str());
    let vv = chars_vec(vl.as_str());

    if !contains_char(&pv, '*') {
        return chars_eq(&pv, &vv);
    }

    let parts = split_star(&pv);
    let ghost pview = parts@.map_values(|x: Vec<char>| x@);
    proof {
        assert(pview.len() == parts@.len());
        assert(forall|j: int| 0 <= j < parts@.len() ==> pview[j] == #[trigger] parts@[j]@);
    }
    if parts.len() == 2 {
        assert(parts@[0]@ == pview[0] && parts@[1]@ == pview[1]);
        if parts[0].len() == 0 {
            ends_with_chars(&vv, &parts[1])
        } else if parts[1].len() == 0 {
            starts_with_chars(&vv, &parts[0])
        } else {
            starts_with_chars(&vv, &parts[0]) && ends_with_chars(&vv, &parts[1])
        }
    } else if parts.len() == 3 && parts[0].len() == 0 && parts[2].len() == 0 {
        assert(parts@[1]@ == pview[1]);
        contains_chars(&vv, &parts[1])
    } else {
        let mut pos: usize = 0;
        let mut k: usize = 0;
        let np = parts.len();
        let vn = vv.len();
        proof {
            assert(pview.skip(0) =~= pview);
        }
        #[verifier::loop_isolation(false)]
        while k < np
            invariant
                np == pview.len(),
                pview == parts@.map_values(|x: Vec<char>| x@),
                vn == vv@.len(),
                k <= np,
                spec_chain(pview, vv@, 0) == spec_chain(
                    pview.skip(k as int),
                    vv@,
                    pos as int,
                ),
        decreases np - k,
        {
            let ghost seg = pview.skip(k as int);
            proof {
                assert(parts@[k as int]@ == pview[k as int]);
                assert(seg[0] == pview[k as int]);
                assert(seg.drop_first() =~= pview.skip(k + 1 as int));
            }
            if parts[k].len() == 0 {
                k = k + 1;
                continue;
            }
            match find_chars(&vv, &parts[k], pos) {
                Some(i) => {
                    proof {
                        lemma_find_found(vv@, pview[k as int], pos as int);
                    }
                    pos = i + parts[k].len();
                    k = k + 1;
                },
                None => {
                    proof {
                        assert(!spec_chain(pview.skip(k as int), vv@, pos as int));
                    }
                    return false;
                },
            }
        }
        assert(spec_chain(pview.skip(np as int), vv@, pos as int)) by {
            assert(pview.skip(np as int) =~= Seq::<Seq<char>>::empty());
        }
        true
    }
}

} // verus!
