//! Verified building blocks for text processing: substring search, splitting
//! on a separator, joining with a separator, and string equality.

use vstd::prelude::*;
use vstd::string::StrSliceExecFns;
use vstd::string::StringExecFns;

verus! {

/// `pat` occurs in `s` starting at position `i`.
pub open spec fn occurs_at(s: Seq<char>, pat: Seq<char>, i: int) -> bool {
    0 <= i && i + pat.len() <= s.len() && s.subrange(i, i + pat.len()) == pat
}

/// Position of the first occurrence of `pat` in `s` at or after `from`.
pub open spec fn spec_find_from(s: Seq<char>, pat: Seq<char>, from: int) -> Option<int>
    decreases s.len() - from,
{
    if pat.len() == 0 || from < 0 || from + pat.len() > s.len() {
        None::<int>
    } else if occurs_at(s, pat, from) {
        Some(from)
    } else {
        spec_find_from(s, pat, from + 1)
    }
}

/// Position of the first occurrence of `pat` in `s`.
pub open spec fn spec_find(s: Seq<char>, pat: Seq<char>) -> Option<int> {
    spec_find_from(s, pat, 0)
}

/// `spec_find_from` returns the first occurrence at or after `from`, and
/// `None` exactly when there is none.
pub proof fn lemma_find_from(s: Seq<char>, pat: Seq<char>, from: int)
    requires
        0 <= from,
        pat.len() > 0,
    ensures
        match spec_find_from(s, pat, from) {
            Some(i) => from <= i && occurs_at(s, pat, i) && forall|j: int|
                from <= j < i ==> !occurs_at(s, pat, j),
            None => forall|j: int| from <= j ==> !occurs_at(s, pat, j),
        },
    decreases s.len() - from,
{
    if from + pat.len() > s.len() {
        assert forall|j: int| from <= j implies !occurs_at(s, pat, j) by {
            assert(j + pat.len() > s.len());
        }
    } else if occurs_at(s, pat, from) {
    } else {
        lemma_find_from(s, pat, from + 1);
    }
}

/// The characters of `pat` all stand in `s` from position `i` on.
fn match_at(s: &str, pat: &str, i: usize, n: usize, m: usize) -> (r: bool)
    requires
        n == s@.len(),
        m == pat@.len(),
        i + m <= n,
    ensures
        r == occurs_at(s@, pat@, i as int),
{
    let mut j: usize = 0;
    while j < m
        invariant
            n == s@.len(),
            m == pat@.len(),
            i + m <= n,
            j <= m,
            forall|k: int| 0 <= k < j ==> s@[i + k] == pat@[k],
        decreases m - j,
    {
        if s.get_char(i + j) != pat.get_char(j) {
            proof {
                if occurs_at(s@, pat@, i as int) {
                    assert(s@.subrange(i as int, i + pat@.len())[j as int] == s@[i + j]);
                }
            }
            return false;
        }
        j += 1;
    }
    proof {
        assert(s@.subrange(i as int, i + pat@.len()) =~= pat@);
    }
    true
}

/// First occurrence of `pat` in `s`, if any.
pub fn find_str(s: &str, pat: &str) -> (r: Option<usize>)
    ensures
        match r {
            Some(i) => spec_find(s@, pat@) == Some(i as int),
            None => spec_find(s@, pat@) is None,
        },
{
    let n = s.unicode_len();
    let m = pat.unicode_len();
    if m == 0 || m > n {
        return None;
    }
    let mut i: usize = 0;
    while i <= n - m
        invariant
            n == s@.len(),
            m == pat@.len(),
            1 <= m <= n,
            i <= n - m + 1,
            forall|j: int| 0 <= j < i ==> !occurs_at(s@, pat@, j),
        decreases n - m - i + 1,
    {
        if match_at(s, pat, i, n, m) {
            proof {
                lemma_find_from(s@, pat@, 0);
                match spec_find(s@, pat@) {
                    Some(f) => {
                        assert(!(f < i));
                        assert(!(i < f)) by {
                            if i < f {
                                assert(!occurs_at(s@, pat@, i as int));
                            }
                        }
                    },
                    None => {
                        assert(!occurs_at(s@, pat@, i as int));
                    },
                }
            }
            return Some(i);
        }
        i += 1;
    }
    proof {
        lemma_find_from(s@, pat@, 0);
        if let Some(f) = spec_find(s@, pat@) {
            assert(occurs_at(s@, pat@, f));
            assert(f + pat@.len() <= s@.len());
            assert(f < i);
        }
    }
    None
}

/// The views of a sequence of strings.
pub open spec fn views_of(v: Seq<String>) -> Seq<Seq<char>> {
    v.map_values(|x: String| x@)
}

/// The pieces of `s` between consecutive occurrences of `pat`, in order;
/// empty pieces are kept.
pub open spec fn spec_split(s: Seq<char>, pat: Seq<char>) -> Seq<Seq<char>>
    decreases s.len(),
    when pat.len() > 0
    via spec_split_decreases
{
    match spec_find(s, pat) {
        None => seq![s],
        Some(i) => seq![s.subrange(0, i)] + spec_split(
            s.subrange(i + pat.len(), s.len() as int),
            pat,
        ),
    }
}

#[via_fn]
proof fn spec_split_decreases(s: Seq<char>, pat: Seq<char>) {
    if let Some(i) = spec_find(s, pat) {
        lemma_find_from(s, pat, 0);
    }
}

/// `s` split on `pat`, as a vector of owned strings.
pub fn split_str(s: &str, pat: &str) -> (r: Vec<String>)
    requires
        pat@.len() > 0,
    ensures
        views_of(r@) == spec_split(s@, pat@),
{
    let n = s.unicode_len();
    let m = pat.unicode_len();
    let mut parts: Vec<String> = Vec::new();
    let mut start: usize = 0;
    proof {
        assert(s@.subrange(0, n as int) =~= s@);
        assert(views_of(parts@) =~~= Seq::<Seq<char>>::empty());
    }
    loop
        invariant
            n == s@.len(),
            m == pat@.len(),
            m > 0,
            start <= n,
            spec_split(s@, pat@) == views_of(parts@) + spec_split(
                s@.subrange(start as int, n as int),
                pat@,
            ),
        decreases n - start,
    {
        let ghost tail_view = s@.subrange(start as int, n as int);
        let tail = s.substring_char(start, n);
        match find_str(tail, pat) {
            None => {
                let piece = String::from_str(tail);
                parts.push(piece);
                proof {
                    assert(spec_split(tail_view, pat@) =~~= seq![tail_view]);
                    assert(views_of(parts@) =~~= spec_split(s@, pat@));
                }
                return parts;
            },
            Some(i) => {
                proof {
                    lemma_find_from(tail_view, pat@, 0);
                }
                let piece = String::from_str(s.substring_char(start, start + i));
                parts.push(piece);
                proof {
                    assert(piece@ =~= tail_view.subrange(0, i as int));
                    assert(s@.subrange(start + i + m, n as int) =~= tail_view.subrange(
                        i + pat@.len(),
                        tail_view.len() as int,
                    ));
                    assert(spec_split(s@, pat@) =~~= views_of(parts@) + spec_split(
                        s@.subrange(start + i + m, n as int),
                        pat@,
                    ));
                }
                start = start + i + m;
            },
        }
    }
}

/// The pieces joined with `sep` between consecutive pieces.
pub open spec fn spec_join(parts: Seq<Seq<char>>, sep: Seq<char>) -> Seq<char>
    decreases parts.len(),
{
    if parts.len() == 0 {
        Seq::<char>::empty()
    } else if parts.len() == 1 {
        parts[0]
    } else {
        parts[0] + sep + spec_join(parts.drop_first(), sep)
    }
}

/// Joining one more piece appends a separator and the piece.
pub proof fn lemma_join_push(parts: Seq<Seq<char>>, sep: Seq<char>, x: Seq<char>)
    ensures
        spec_join(parts.push(x), sep) == if parts.len() == 0 {
            x
        } else {
            (spec_join(parts, sep) + sep + x)
        },
    decreases parts.len(),
{
    if parts.len() == 0 {
        assert(spec_join(parts.push(x), sep) =~= x);
    } else if parts.len() == 1 {
        assert(parts.push(x).drop_first() =~~= seq![x]);
        assert(spec_join(seq![x], sep) == x);
        assert(spec_join(parts.push(x), sep) == parts.push(x)[0] + sep + spec_join(
            parts.push(x).drop_first(),
            sep,
        ));
        assert(parts.push(x)[0] == parts[0]);
        assert(spec_join(parts, sep) == parts[0]);
    } else {
        lemma_join_push(parts.drop_first(), sep, x);
        assert(parts.push(x).drop_first() =~~= parts.drop_first().push(x));
        assert(spec_join(parts.push(x), sep) == parts.push(x)[0] + sep + spec_join(
            parts.push(x).drop_first(),
            sep,
        ));
        assert(spec_join(parts.drop_first().push(x), sep) == spec_join(parts.drop_first(), sep)
            + sep + x);
        assert(spec_join(parts, sep) == parts[0] + sep + spec_join(parts.drop_first(), sep));
        assert(spec_join(parts.push(x), sep) =~= spec_join(parts, sep) + sep + x);
    }
}

/// The elements of `parts` from `start` on, joined with `sep`.
pub fn join_from(parts: &Vec<String>, start: usize, sep: &str) -> (r: String)
    requires
        start <= parts@.len(),
    ensures
        r@ == spec_join(views_of(parts@).skip(start as int), sep@),
{
    let ghost v = views_of(parts@).skip(start as int);
    let len = parts.len();
    if start >= len {
        proof {
            assert(v =~~= Seq::<Seq<char>>::empty());
        }
        return String::new();
    }
    let mut r = String::new();
    r.append((&parts[start]).as_str());
    proof {
        assert(v.take(1) =~~= seq![parts@[start as int]@]);
        assert(r@ =~= spec_join(v.take(1), sep@));
    }
    let mut k: usize = start + 1;
    while k < len
        invariant
            start < len,
            start < k <= len,
            len == parts@.len(),
            v == views_of(parts@).skip(start as int),
            r@ == spec_join(v.take(k - start), sep@),
        decreases len - k,
    {
        r.append(sep);
        r.append((&parts[k]).as_str());
        proof {
            lemma_join_push(v.take(k - start), sep@, parts@[k as int]@);
            assert(v.take(k + 1 - start) =~~= v.take(k - start).push(parts@[k as int]@));
        }
        k += 1;
    }
    proof {
        assert(v.take(len - start) =~~= v);
    }
    r
}

/// The two strings hold the same characters.
pub fn str_eq(a: &str, b: &str) -> (r: bool)
    ensures
        r == (a@ == b@),
{
    let n = a.unicode_len();
    let m = b.unicode_len();
    if n != m {
        return false;
    }
    let mut j: usize = 0;
    while j < n
        invariant
            n == a@.len(),
            n == b@.len(),
            j <= n,
            forall|k: int| 0 <= k < j ==> a@[k] == b@[k],
        decreases n - j,
    {
        if a.get_char(j) != b.get_char(j) {
            return false;
        }
        j += 1;
    }
    proof {
        assert(a@ =~= b@);
    }
    true
}

} // verus!
