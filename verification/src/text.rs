//! Searching and slicing text, stated over sequences of characters.

use vstd::prelude::*;
use vstd::string::{StrSliceExecFns, StringExecFns};

verus! {

/// `pat` stands in `s` at index `i`.
pub open spec fn occurs_at(s: Seq<char>, pat: Seq<char>, i: int) -> bool {
    &&& 0 <= i
    &&& i + pat.len() <= s.len()
    &&& s.subrange(i, i + pat.len()) =~= pat
}

/// `i` is the least index at which `pat` stands in `s`.
pub open spec fn is_first_occurrence(s: Seq<char>, pat: Seq<char>, i: int) -> bool {
    &&& occurs_at(s, pat, i)
    &&& forall|j: int| 0 <= j < i ==> !#[trigger] occurs_at(s, pat, j)
}

/// The least index at which `pat` stands in `s`, if it stands anywhere.
pub open spec fn first_occurrence(s: Seq<char>, pat: Seq<char>) -> Option<int> {
    if exists|i: int| occurs_at(s, pat, i) {
        Some(choose|i: int| is_first_occurrence(s, pat, i))
    } else {
        None
    }
}

/// What `s` holds before the first occurrence of `pat`; all of `s` where
/// `pat` does not occur.
pub open spec fn before_first(s: Seq<char>, pat: Seq<char>) -> Seq<char> {
    match first_occurrence(s, pat) {
        Some(i) => s.subrange(0, i),
        None => s,
    }
}

/// What `s` holds behind the first occurrence of `pat`.
pub open spec fn after_first(s: Seq<char>, pat: Seq<char>) -> Option<Seq<char>> {
    match first_occurrence(s, pat) {
        Some(i) => Some(s.subrange(i + pat.len(), s.len() as int)),
        None => None,
    }
}

/// `s` with every occurrence of `pat` taken out, the occurrences found from
/// left to right, each search starting behind the last find.
pub open spec fn without(s: Seq<char>, pat: Seq<char>) -> Seq<char>
    decreases s.len(),
    via without_decreases
{
    if pat.len() == 0 {
        s
    } else {
        match first_occurrence(s, pat) {
            Some(i) => s.subrange(0, i) + without(s.subrange(i + pat.len(), s.len() as int), pat),
            None => s,
        }
    }
}

#[via_fn]
proof fn without_decreases(s: Seq<char>, pat: Seq<char>) {
    lemma_first_occurrence_is_least(s, pat);
}

/// The first occurrence is a least occurrence.
pub proof fn lemma_first_occurrence_is_least(s: Seq<char>, pat: Seq<char>)
    ensures
        first_occurrence(s, pat) matches Some(i) ==> is_first_occurrence(s, pat, i),
{
    if exists|i: int| occurs_at(s, pat, i) {
        let some = choose|i: int| occurs_at(s, pat, i);
        lemma_least_occurrence_exists(s, pat, some);
    }
}

/// Below an occurrence there is a least one.
proof fn lemma_least_occurrence_exists(s: Seq<char>, pat: Seq<char>, i: int)
    requires
        occurs_at(s, pat, i),
    ensures
        exists|k: int| is_first_occurrence(s, pat, k),
    decreases i,
{
    if exists|j: int| 0 <= j < i && occurs_at(s, pat, j) {
        let j = choose|j: int| 0 <= j < i && occurs_at(s, pat, j);
        lemma_least_occurrence_exists(s, pat, j);
    } else {
        assert(is_first_occurrence(s, pat, i));
    }
}

/// A least occurrence is the first occurrence.
pub proof fn lemma_first_occurrence_found(s: Seq<char>, pat: Seq<char>, i: int)
    requires
        is_first_occurrence(s, pat, i),
    ensures
        first_occurrence(s, pat) == Some(i),
{
    let chosen = choose|k: int| is_first_occurrence(s, pat, k);
    assert(is_first_occurrence(s, pat, chosen));
    if chosen < i {
        assert(!occurs_at(s, pat, chosen));
    }
    if i < chosen {
        assert(!occurs_at(s, pat, i));
    }
}

/// Where `pat` stands at no index below the last one that could hold it,
/// there is no first occurrence.
pub proof fn lemma_first_occurrence_absent(s: Seq<char>, pat: Seq<char>)
    requires
        forall|j: int| 0 <= j && j + pat.len() <= s.len() ==> !#[trigger] occurs_at(s, pat, j),
    ensures
        first_occurrence(s, pat) is None,
{
    assert forall|i: int| !occurs_at(s, pat, i) by {
        if 0 <= i && i + pat.len() <= s.len() {
            assert(!occurs_at(s, pat, i));
        }
    }
}

/// The characters of `s`, in order.
pub fn chars_of(s: &str) -> (chars: Vec<char>)
    ensures
        chars@ == s@,
{
    let mut chars: Vec<char> = Vec::new();
    for c in it: s.chars()
        invariant
            chars@ == it.seq().take(it.index() as int),
            it.seq() == s@,
    {
        chars.push(c);
    }
    chars
}

/// Whether `a` and `b` hold the same characters.
pub fn same(a: &str, b: &str) -> (equal: bool)
    ensures
        equal == (a@ == b@),
{
    let left = chars_of(a);
    let right = chars_of(b);
    if left.len() != right.len() {
        return false;
    }
    let mut at: usize = 0;
    while at < left.len()
        invariant
            at <= left.len(),
            left.len() == right.len(),
            left@ == a@,
            right@ == b@,
            forall|k: int| 0 <= k < at ==> left@[k] == right@[k],
        decreases left.len() - at,
    {
        if left[at] != right[at] {
            assert(a@[at as int] != b@[at as int]);
            return false;
        }
        at += 1;
    }
    assert(left@ =~= right@);
    true
}

/// Whether `pat` stands in `s[..end]` at index `at`.
pub fn occurs_within(s: &Vec<char>, end: usize, pat: &Vec<char>, at: usize) -> (found: bool)
    requires
        end <= s.len(),
    ensures
        found == occurs_at(s@.subrange(0, end as int), pat@, at as int),
{
    let ghost window = s@.subrange(0, end as int);
    if pat.len() > end || at > end - pat.len() {
        return false;
    }
    let mut k: usize = 0;
    while k < pat.len()
        invariant
            k <= pat.len(),
            end <= s.len(),
            at + pat.len() <= end,
            window == s@.subrange(0, end as int),
            forall|m: int| 0 <= m < k ==> window[at + m] == pat@[m],
        decreases pat.len() - k,
    {
        if s[at + k] != pat[k] {
            proof {
                let piece = window.subrange(at as int, at + pat.len());
                assert(piece[k as int] == window[at + k]);
                assert(piece[k as int] != pat@[k as int]);
            }
            return false;
        }
        k += 1;
    }
    proof {
        let piece = window.subrange(at as int, at + pat.len());
        assert forall|m: int| 0 <= m < pat.len() implies piece[m] == pat@[m] by {
            assert(piece[m] == window[at + m]);
        }
        assert(piece =~= pat@);
    }
    true
}

/// The first index in `s[start..end]`, counted from `start`, at which `pat`
/// stands.
pub fn find_within(s: &Vec<char>, start: usize, end: usize, pat: &Vec<char>) -> (found: Option<
    usize,
>)
    requires
        start <= end <= s.len(),
    ensures
        found matches Some(i) ==> first_occurrence(s@.subrange(start as int, end as int), pat@)
            == Some(i as int) && start + i + pat.len() <= end,
        found is None ==> first_occurrence(s@.subrange(start as int, end as int), pat@) is None,
{
    let ghost window = s@.subrange(start as int, end as int);
    let ghost prefix = s@.subrange(0, end as int);
    proof {
        assert forall|j: int| 0 <= j implies occurs_at(window, pat@, j) == occurs_at(
            prefix,
            pat@,
            start + j,
        ) by {
            if j + pat.len() <= window.len() {
                assert(window.subrange(j, j + pat.len()) =~= prefix.subrange(
                    start + j,
                    start + j + pat.len(),
                ));
            }
        }
    }
    let mut at: usize = start;
    while at < end
        invariant
            start <= at <= end <= s.len(),
            window == s@.subrange(start as int, end as int),
            prefix == s@.subrange(0, end as int),
            forall|j: int|
                0 <= j ==> occurs_at(window, pat@, j) == occurs_at(prefix, pat@, start + j),
            forall|j: int| 0 <= j < at - start ==> !#[trigger] occurs_at(window, pat@, j),
        decreases end - at,
    {
        if occurs_within(s, end, pat, at) {
            proof {
                assert(occurs_at(window, pat@, at - start));
                lemma_first_occurrence_found(window, pat@, at - start);
            }
            return Some(at - start);
        }
        proof {
            assert(!occurs_at(window, pat@, at - start));
        }
        at += 1;
    }
    if occurs_within(s, end, pat, end) {
        proof {
            assert(occurs_at(window, pat@, end - start));
            lemma_first_occurrence_found(window, pat@, end - start);
        }
        return Some(end - start);
    }
    proof {
        assert(!occurs_at(window, pat@, end - start));
        lemma_first_occurrence_absent(window, pat@);
    }
    None
}

/// `s` with every occurrence of `pat` taken out.
pub fn remove_all(s: &str, pat: &str) -> (out: String)
    ensures
        out@ == without(s@, pat@),
{
    let text = chars_of(s);
    let pattern = chars_of(pat);
    if pattern.len() == 0 {
        return String::from_str(s);
    }
    let mut out = String::new();
    let mut from: usize = 0;
    assert(s@.subrange(0, s@.len() as int) =~= s@);
    loop
        invariant
            text@ == s@,
            pattern@ == pat@,
            pattern.len() > 0,
            from <= text.len(),
            out@ + without(s@.subrange(from as int, s@.len() as int), pat@) == without(s@, pat@),
        decreases text.len() - from,
    {
        let ghost rest = s@.subrange(from as int, s@.len() as int);
        match find_within(&text, from, text.len(), &pattern) {
            None => {
                out.append(s.substring_char(from, text.len()));
                return out;
            },
            Some(at) => {
                let ghost before = out@;
                out.append(s.substring_char(from, from + at));
                proof {
                    let kept = rest.subrange(0, at as int);
                    let tail = rest.subrange(at + pattern.len(), rest.len() as int);
                    assert(kept =~= s@.subrange(from as int, from + at));
                    assert(tail =~= s@.subrange(from + at + pattern.len(), s@.len() as int));
                    assert(without(rest, pat@) == kept + without(tail, pat@));
                    assert((before + kept) + without(tail, pat@) =~= before + (kept + without(
                        tail,
                        pat@,
                    )));
                }
                from = from + at + pattern.len();
            },
        }
    }
}

/// The texts `parts` put together, with `sep` between each two of them.
pub open spec fn joined(parts: Seq<Seq<char>>, sep: Seq<char>) -> Seq<char>
    decreases parts.len(),
{
    if parts.len() == 0 {
        Seq::empty()
    } else if parts.len() == 1 {
        parts[0]
    } else {
        joined(parts.drop_last(), sep) + sep + parts.last()
    }
}

/// The texts `parts` put together, with `sep` between each two of them.
pub fn join(parts: &Vec<String>, sep: &str) -> (out: String)
    ensures
        out@ == joined(parts.deep_view(), sep@),
{
    let ghost all = parts.deep_view();
    let mut out = String::new();
    let mut at: usize = 0;
    assert(all.take(0) =~= Seq::<Seq<char>>::empty());
    while at < parts.len()
        invariant
            at <= parts.len(),
            all == parts.deep_view(),
            out@ == joined(all.take(at as int), sep@),
        decreases parts.len() - at,
    {
        let ghost before = out@;
        proof {
            let upto = all.take(at + 1);
            assert(upto.drop_last() =~= all.take(at as int));
            assert(upto.last() == parts[at as int]@);
            if at == 0 {
                assert(upto[0] == parts[0]@);
            }
        }
        if at > 0 {
            out.append(sep);
        }
        out.append(parts[at].as_str());
        proof {
            if at == 0 {
                assert(out@ =~= parts[0]@);
            } else {
                assert(out@ =~= before + sep@ + parts[at as int]@);
            }
        }
        at += 1;
    }
    assert(all.take(all.len() as int) =~= all);
    out
}

} // verus!
