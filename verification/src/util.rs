//! Small byte-string helpers: substring search, prefix and suffix tests,
//! trimming and tokenizing. Everything in this crate works on bytes, so these
//! are the vocabulary the other modules' contracts are written in.

use vstd::prelude::*;

verus! {

/// `needle` occurs in `hay` as a contiguous run starting at index `i`.
pub open spec fn occurs_at(hay: Seq<u8>, needle: Seq<u8>, i: int) -> bool {
    0 <= i && i + needle.len() <= hay.len() && hay.subrange(i, i + needle.len()) == needle
}

/// `needle` occurs somewhere in `hay`.
pub open spec fn contains_seq(hay: Seq<u8>, needle: Seq<u8>) -> bool {
    exists|i: int| occurs_at(hay, needle, i)
}

/// Compare `hay[i..i+needle.len()]` with `needle`.
pub fn matches_at(hay: &[u8], needle: &[u8], i: usize) -> (r: bool)
    requires
        i + needle@.len() <= hay@.len(),
    ensures
        r == occurs_at(hay@, needle@, i as int),
{
    let hlen: usize = hay.len();
    let mut j: usize = 0;
    while j < needle.len()
        invariant
            i + needle@.len() <= hay@.len(),
            hlen == hay@.len(),
            j <= needle@.len(),
            forall|k: int| 0 <= k < j ==> hay@[i + k] == needle@[k],
        decreases needle@.len() - j,
    {
        if hay[i + j] != needle[j] {
            assert(hay@.subrange(i as int, i + needle@.len())[j as int] != needle@[j as int]);
            return false;
        }
        j += 1;
    }
    assert(hay@.subrange(i as int, i + needle@.len()) =~= needle@);
    true
}

/// Does `hay` start with `needle`?
pub fn starts_with(hay: &[u8], needle: &[u8]) -> (r: bool)
    ensures
        r == occurs_at(hay@, needle@, 0),
{
    if needle.len() > hay.len() {
        return false;
    }
    matches_at(hay, needle, 0)
}

/// Does `hay` end with `needle`?
pub fn ends_with(hay: &[u8], needle: &[u8]) -> (r: bool)
    ensures
        r == (needle@.len() <= hay@.len() && occurs_at(
            hay@,
            needle@,
            hay@.len() - needle@.len(),
        )),
{
    if needle.len() > hay.len() {
        return false;
    }
    matches_at(hay, needle, hay.len() - needle.len())
}

/// Index of the first occurrence of `needle` in `hay`, if any.
pub fn find_first(hay: &[u8], needle: &[u8]) -> (r: Option<usize>)
    ensures
        match r {
            Some(i) => i as int == first_occurrence(hay@, needle@) && occurs_at(
                hay@,
                needle@,
                i as int,
            ) && forall|j: int| 0 <= j < i ==> !occurs_at(hay@, needle@, j),
            None => first_occurrence(hay@, needle@) == -1 && !contains_seq(hay@, needle@),
        },
{
    proof {
        lemma_first_occurrence(hay@, needle@);
    }
    if needle.len() > hay.len() {
        assert(forall|j: int| !occurs_at(hay@, needle@, j));
        return None;
    }
    let last: usize = hay.len() - needle.len();
    let mut i: usize = 0;
    loop
        invariant
            needle@.len() <= hay@.len(),
            last == hay@.len() - needle@.len(),
            i <= last,
            forall|j: int| 0 <= j < i ==> !occurs_at(hay@, needle@, j),
            -1 <= first_occurrence(hay@, needle@) <= hay@.len(),
            first_occurrence(hay@, needle@) >= 0 ==> occurs_at(
                hay@,
                needle@,
                first_occurrence(hay@, needle@),
            ) && forall|j: int|
                0 <= j < first_occurrence(hay@, needle@) ==> !occurs_at(hay@, needle@, j),
            first_occurrence(hay@, needle@) == -1 ==> forall|j: int| !occurs_at(hay@, needle@, j),
        decreases last - i,
    {
        if matches_at(hay, needle, i) {
            proof {
                let fo = first_occurrence(hay@, needle@);
                if fo < i {
                    assert(!occurs_at(hay@, needle@, fo));
                }
                if fo > i || fo == -1 {
                    assert(!occurs_at(hay@, needle@, i as int));
                }
            }
            return Some(i);
        }
        if i == last {
            assert(forall|j: int| i < j ==> !occurs_at(hay@, needle@, j));
            proof {
                let fo = first_occurrence(hay@, needle@);
                if fo >= 0 {
                    assert(occurs_at(hay@, needle@, fo));
                    assert(false);
                }
            }
            return None;
        }
        i += 1;
    }
}

/// Index of the first occurrence of `needle` in `hay`, or `-1`.
pub open spec fn first_occurrence(hay: Seq<u8>, needle: Seq<u8>) -> int
    decreases hay.len(),
{
    if hay.len() < needle.len() {
        -1
    } else if occurs_at(hay, needle, 0) {
        0
    } else if hay.len() == 0 {
        -1
    } else {
        let r = first_occurrence(hay.drop_first(), needle);
        if r < 0 {
            -1
        } else {
            r + 1
        }
    }
}

/// `first_occurrence` is the smallest occurrence index, or `-1` when there
/// is none.
pub proof fn lemma_first_occurrence(hay: Seq<u8>, needle: Seq<u8>)
    ensures
        -1 <= first_occurrence(hay, needle) <= hay.len(),
        first_occurrence(hay, needle) >= 0 ==> occurs_at(hay, needle, first_occurrence(hay, needle))
            && forall|j: int| 0 <= j < first_occurrence(hay, needle) ==> !occurs_at(hay, needle, j),
        first_occurrence(hay, needle) == -1 ==> forall|j: int| !occurs_at(hay, needle, j),
    decreases hay.len(),
{
    if hay.len() < needle.len() {
        assert(forall|j: int| !occurs_at(hay, needle, j));
    } else if occurs_at(hay, needle, 0) {
    } else if hay.len() == 0 {
        assert(hay.subrange(0, 0) =~= needle);
        assert(false);
    } else {
        lemma_first_occurrence(hay.drop_first(), needle);
        assert forall|k: int| 0 <= k implies occurs_at(hay.drop_first(), needle, k) == occurs_at(
            hay,
            needle,
            k + 1,
        ) by {
            if k + 1 + needle.len() <= hay.len() {
                assert(hay.drop_first().subrange(k, k + needle.len() as int) =~= hay.subrange(
                    k + 1,
                    k + 1 + needle.len() as int,
                ));
            }
        }
        let r = first_occurrence(hay.drop_first(), needle);
        if r >= 0 {
            assert(occurs_at(hay, needle, r + 1));
            assert forall|j: int| 0 <= j < r + 1 implies !occurs_at(hay, needle, j) by {
                if j > 0 {
                    assert(!occurs_at(hay.drop_first(), needle, j - 1));
                }
            }
        } else {
            assert forall|j: int| !occurs_at(hay, needle, j) by {
                if j > 0 {
                    assert(!occurs_at(hay.drop_first(), needle, j - 1));
                }
            }
        }
    }
}

/// Does `needle` occur anywhere in `hay`?
pub fn contains_bytes(hay: &[u8], needle: &[u8]) -> (r: bool)
    ensures
        r == contains_seq(hay@, needle@),
{
    find_first(hay, needle).is_some()
}

/// Byte-wise equality of two slices.
pub fn bytes_eq(a: &[u8], b: &[u8]) -> (r: bool)
    ensures
        r == (a@ == b@),
{
    if a.len() != b.len() {
        return false;
    }
    if matches_at(a, b, 0) {
        assert(a@.subrange(0, a@.len() as int) =~= a@);
        true
    } else {
        assert(a@.subrange(0, a@.len() as int) =~= a@);
        false
    }
}

/// Copy `s[i..j]` into a fresh vector.
pub fn subvec(s: &[u8], i: usize, j: usize) -> (r: Vec<u8>)
    requires
        i <= j <= s@.len(),
    ensures
        r@ == s@.subrange(i as int, j as int),
{
    let mut out: Vec<u8> = Vec::new();
    let mut k: usize = i;
    while k < j
        invariant
            i <= k <= j <= s@.len(),
            out@ == s@.subrange(i as int, k as int),
        decreases j - k,
    {
        out.push(s[k]);
        assert(out@ =~= s@.subrange(i as int, k + 1int));
        k += 1;
    }
    out
}

/// Append all of `src` to `dst`.
pub fn push_all(dst: &mut Vec<u8>, src: &[u8])
    ensures
        final(dst)@ == old(dst)@ + src@,
{
    let mut k: usize = 0;
    while k < src.len()
        invariant
            k <= src@.len(),
            dst@ == old(dst)@ + src@.subrange(0, k as int),
        decreases src@.len() - k,
    {
        dst.push(src[k]);
        assert(dst@ =~= old(dst)@ + src@.subrange(0, k + 1int));
        k += 1;
    }
    assert(dst@ =~= old(dst)@ + src@);
}

/// A fresh copy of a byte vector.
pub fn clone_bytes(v: &Vec<u8>) -> (r: Vec<u8>)
    ensures
        r@ == v@,
{
    subvec(v.as_slice(), 0, v.len())
}

/// A fresh copy of a list of byte vectors; the views are unchanged.
pub fn clone_bytes_vec(v: &Vec<Vec<u8>>) -> (r: Vec<Vec<u8>>)
    ensures
        r@.len() == v@.len(),
        forall|i: int| 0 <= i < v@.len() ==> r@[i]@ == v@[i]@,
{
    let mut out: Vec<Vec<u8>> = Vec::new();
    let mut i: usize = 0;
    while i < v.len()
        invariant
            i <= v@.len(),
            out@.len() == i,
            forall|k: int| 0 <= k < i ==> out@[k]@ == v@[k]@,
        decreases v@.len() - i,
    {
        out.push(clone_bytes(&v[i]));
        i += 1;
    }
    out
}

/// The views of a list of byte vectors.
pub open spec fn views_of(s: Seq<Vec<u8>>) -> Seq<Seq<u8>> {
    s.map_values(|v: Vec<u8>| v@)
}

/// Concatenation of `f` over `s`, in order.
pub open spec fn concat_map<A, B>(s: Seq<A>, f: spec_fn(A) -> Seq<B>) -> Seq<B>
    decreases s.len(),
{
    if s.len() == 0 {
        Seq::empty()
    } else {
        f(s[0]) + concat_map(s.drop_first(), f)
    }
}

/// Appending one element on the right extends the concatenation on the right.
pub proof fn lemma_concat_map_snoc<A, B>(s: Seq<A>, x: A, f: spec_fn(A) -> Seq<B>)
    ensures
        concat_map(s.push(x), f) == concat_map(s, f) + f(x),
    decreases s.len(),
{
    if s.len() == 0 {
        assert(s.push(x).drop_first() =~= s);
        assert(concat_map(s.push(x), f) =~= concat_map(s, f) + f(x));
    } else {
        assert(s.push(x).drop_first() =~= s.drop_first().push(x));
        lemma_concat_map_snoc(s.drop_first(), x, f);
        assert(concat_map(s.push(x), f) =~= concat_map(s, f) + f(x));
    }
}

/// Index of the last occurrence of `b` in `p`, or `-1` when there is none.
pub open spec fn last_index_of(p: Seq<u8>, b: u8) -> int
    decreases p.len(),
{
    if p.len() == 0 {
        -1
    } else if p[p.len() - 1] == b {
        p.len() - 1
    } else {
        last_index_of(p.drop_last(), b)
    }
}

/// Index of the last byte equal to `b`, or `None`.
pub fn rfind_byte(p: &[u8], b: u8) -> (r: Option<usize>)
    ensures
        match r {
            Some(i) => last_index_of(p@, b) == i as int && i < p@.len(),
            None => last_index_of(p@, b) == -1,
        },
{
    let mut k: usize = p.len();
    proof {
        assert(p@.take(p@.len() as int) =~= p@);
    }
    while k > 0
        invariant
            k <= p@.len(),
            last_index_of(p@, b) == last_index_of(p@.take(k as int), b),
        decreases k,
    {
        if p[k - 1] == b {
            assert(p@.take(k as int)[k - 1] == b);
            return Some(k - 1);
        }
        proof {
            assert(p@.take(k as int).drop_last() =~= p@.take(k - 1));
            assert(p@.take(k as int)[k - 1] != b);
        }
        k -= 1;
    }
    proof {
        assert(p@.take(0) =~= Seq::<u8>::empty());
    }
    None
}

/// Index of the last `/` in `p`, or `-1` when there is none.
pub open spec fn last_slash(p: Seq<u8>) -> int {
    last_index_of(p, 47)
}

/// The directory part of a `/`-separated path: everything before the last
/// `/`, or empty when there is none.
pub open spec fn parent_of(p: Seq<u8>) -> Seq<u8> {
    if last_slash(p) < 0 {
        Seq::empty()
    } else {
        p.take(last_slash(p))
    }
}

/// Compute the directory part of a `/`-separated path.
pub fn parent_dir(p: &[u8]) -> (r: Vec<u8>)
    ensures
        r@ == parent_of(p@),
{
    let mut k: usize = p.len();
    proof {
        assert(p@.take(p@.len() as int) =~= p@);
    }
    while k > 0
        invariant
            k <= p@.len(),
            last_slash(p@) == last_slash(p@.take(k as int)),
        decreases k,
    {
        if p[k - 1] == 47 {
            assert(p@.take(k as int)[k - 1] == 47);
            let r = subvec(p, 0, k - 1);
            assert(r@ == parent_of(p@));
            return r;
        }
        proof {
            assert(p@.take(k as int).drop_last() =~= p@.take(k - 1));
            assert(p@.take(k as int)[k - 1] != 47);
        }
        k -= 1;
    }
    proof {
        assert(p@.take(0) =~= Seq::<u8>::empty());
        assert(last_slash(p@) == -1);
    }
    Vec::new()
}

/// A space or a horizontal tab.
pub open spec fn is_ws(b: u8) -> bool {
    b == 32 || b == 9
}

/// Check a byte for space or tab.
pub fn byte_is_ws(b: u8) -> (r: bool)
    ensures
        r == is_ws(b),
{
    b == 32 || b == 9
}

/// Index of the first byte at or after `from` that is not a space or tab;
/// the length when all are.
pub open spec fn ws_end(s: Seq<u8>, from: int) -> int
    decreases s.len() - from when 0 <= from <= s.len()
{
    if from >= s.len() {
        from
    } else if is_ws(s[from]) {
        ws_end(s, from + 1)
    } else {
        from
    }
}

/// Index of the first byte that is not a space or tab; `s.len()` when all are.
pub fn skip_ws(s: &[u8], from: usize) -> (r: usize)
    requires
        from <= s@.len(),
    ensures
        from <= r <= s@.len(),
        forall|k: int| from <= k < r ==> is_ws(s@[k]),
        r < s@.len() ==> !is_ws(s@[r as int]),
        r as int == ws_end(s@, from as int),
{
    let mut i: usize = from;
    while i < s.len()
        invariant
            from <= i <= s@.len(),
            forall|k: int| from <= k < i ==> is_ws(s@[k]),
            ws_end(s@, from as int) == ws_end(s@, i as int),
        decreases s@.len() - i,
    {
        if !byte_is_ws(s[i]) {
            return i;
        }
        i += 1;
    }
    i
}

/// Index just past the trailing spaces and tabs of `s[..upto]`; `0` when
/// everything before `upto` is blank.
pub open spec fn rtrim_from(s: Seq<u8>, upto: int) -> int
    decreases upto when 0 <= upto <= s.len()
{
    if upto <= 0 {
        0
    } else if is_ws(s[upto - 1]) {
        rtrim_from(s, upto - 1)
    } else {
        upto
    }
}

/// A blank prefix right-trims to nothing.
pub proof fn lemma_rtrim_all_ws(s: Seq<u8>, upto: int)
    requires
        0 <= upto <= s.len(),
        forall|k: int| 0 <= k < upto ==> is_ws(s[k]),
    ensures
        rtrim_from(s, upto) == 0,
    decreases upto,
{
    if upto > 0 {
        lemma_rtrim_all_ws(s, upto - 1);
    }
}

/// `s` without leading and trailing spaces and tabs.
pub open spec fn trim_of(s: Seq<u8>) -> Seq<u8> {
    let a = ws_end(s, 0);
    let b = rtrim_from(s, s.len() as int);
    if b <= a {
        Seq::empty()
    } else {
        s.subrange(a, b)
    }
}

/// Copy of `s` without leading and trailing spaces and tabs.
pub fn trim(s: &[u8]) -> (r: Vec<u8>)
    ensures
        r@ == trim_of(s@),
        exists|i: int, j: int|
            0 <= i <= j <= s@.len() && r@ == s@.subrange(i, j) && (forall|k: int|
                0 <= k < i ==> is_ws(s@[k])) && (forall|k: int| j <= k < s@.len() ==> is_ws(s@[k]))
                && (i < j ==> !is_ws(s@[i]) && !is_ws(s@[j - 1])),
{
    let start: usize = skip_ws(s, 0);
    let mut end: usize = s.len();
    while end > start && byte_is_ws(s[end - 1])
        invariant
            start <= end <= s@.len(),
            start as int == ws_end(s@, 0),
            start < s@.len() ==> !is_ws(s@[start as int]),
            forall|k: int| 0 <= k < start ==> is_ws(s@[k]),
            forall|k: int| end <= k < s@.len() ==> is_ws(s@[k]),
            rtrim_from(s@, s@.len() as int) == rtrim_from(s@, end as int),
        decreases end,
    {
        end -= 1;
    }
    let r = subvec(s, start, end);
    proof {
        if end == start {
            lemma_rtrim_all_ws(s@, start as int);
            assert(rtrim_from(s@, s@.len() as int) == 0);
            assert(r@ =~= trim_of(s@));
        } else {
            assert(!is_ws(s@[end - 1]));
            assert(rtrim_from(s@, end as int) == end);
            assert(r@ =~= trim_of(s@));
        }
    }
    assert(r@ == s@.subrange(start as int, end as int));
    r
}

/// Index of the first space or tab at or after `from`; the length when the
/// run reaches the end.
pub open spec fn token_end_at(s: Seq<u8>, from: int) -> int
    decreases s.len() - from when 0 <= from <= s.len()
{
    if from >= s.len() {
        from
    } else if is_ws(s[from]) {
        from
    } else {
        token_end_at(s, from + 1)
    }
}

/// `token_end_at` stays within the run it was asked about.
pub proof fn lemma_token_end_bounds(s: Seq<u8>, from: int)
    requires
        0 <= from <= s.len(),
    ensures
        from <= token_end_at(s, from) <= s.len(),
    decreases s.len() - from,
{
    if from < s.len() && !is_ws(s[from]) {
        lemma_token_end_bounds(s, from + 1);
    }
}

/// A run of non-blank bytes closed by a blank or the end pins the token
/// end.
pub proof fn lemma_token_end_char(s: Seq<u8>, from: int, j: int)
    requires
        0 <= from <= j <= s.len(),
        forall|k: int| from <= k < j ==> !is_ws(s[k]),
        j == s.len() || is_ws(s[j]),
    ensures
        token_end_at(s, from) == j,
    decreases j - from,
{
    if from < j {
        lemma_token_end_char(s, from + 1, j);
    }
}

/// The tokens of `s` from position `i` on: maximal runs of bytes that are
/// not spaces or tabs, in order.
pub open spec fn tokens_from(s: Seq<u8>, i: int) -> Seq<Seq<u8>>
    decreases s.len() - i when 0 <= i <= s.len()
{
    if i >= s.len() {
        Seq::empty()
    } else if is_ws(s[i]) {
        tokens_from(s, i + 1)
    } else {
        let e = token_end_at(s, i);
        if i < e <= s.len() {
            seq![s.subrange(i, e)] + tokens_from(s, e)
        } else {
            Seq::empty()
        }
    }
}

/// Leading blanks do not change the tokens.
pub proof fn lemma_tokens_skip_ws(s: Seq<u8>, j: int)
    requires
        0 <= j <= s.len(),
    ensures
        tokens_from(s, j) == tokens_from(s, ws_end(s, j)),
    decreases s.len() - j,
{
    if j < s.len() && is_ws(s[j]) {
        lemma_tokens_skip_ws(s, j + 1);
    }
}

/// The tokens of `s`: maximal runs of bytes that are not spaces or tabs, in order.
pub fn split_ws(s: &[u8]) -> (r: Vec<Vec<u8>>)
    ensures
        views_of(r@) == tokens_from(s@, 0),
        forall|t: int| 0 <= t < r@.len() ==> r@[t]@.len() > 0,
        forall|t: int, k: int| 0 <= t < r@.len() && 0 <= k < r@[t]@.len() ==> !is_ws(r@[t]@[k]),
        forall|t: int| 0 <= t < r@.len() ==> contains_seq(s@, r@[t]@),
{
    let mut out: Vec<Vec<u8>> = Vec::new();
    let mut i: usize = skip_ws(s, 0);
    proof {
        lemma_tokens_skip_ws(s@, 0);
        assert(views_of(out@) + tokens_from(s@, i as int) =~= tokens_from(s@, 0));
    }
    while i < s.len()
        invariant
            i <= s@.len(),
            i < s@.len() ==> !is_ws(s@[i as int]),
            views_of(out@) + tokens_from(s@, i as int) == tokens_from(s@, 0),
            forall|t: int| 0 <= t < out@.len() ==> out@[t]@.len() > 0,
            forall|t: int, k: int|
                0 <= t < out@.len() && 0 <= k < out@[t]@.len() ==> !is_ws(out@[t]@[k]),
            forall|t: int| 0 <= t < out@.len() ==> contains_seq(s@, out@[t]@),
        decreases s@.len() - i,
    {
        let mut j: usize = i;
        while j < s.len() && !byte_is_ws(s[j])
            invariant
                i <= j <= s@.len(),
                forall|k: int| i <= k < j ==> !is_ws(s@[k]),
            decreases s@.len() - j,
        {
            j += 1;
        }
        proof {
            lemma_token_end_char(s@, i as int, j as int);
        }
        let tok = subvec(s, i, j);
        assert(occurs_at(s@, tok@, i as int));
        let ghost prev = out@;
        out.push(tok);
        proof {
            assert(tokens_from(s@, i as int) == seq![s@.subrange(i as int, j as int)]
                + tokens_from(s@, j as int));
            assert(views_of(out@) =~= views_of(prev).push(s@.subrange(i as int, j as int)));
            lemma_tokens_skip_ws(s@, j as int);
        }
        i = skip_ws(s, j);
        proof {
            assert(views_of(out@) + tokens_from(s@, i as int) =~= tokens_from(s@, 0));
        }
    }
    proof {
        assert(tokens_from(s@, s@.len() as int) =~= Seq::<Seq<u8>>::empty());
        assert(views_of(out@) =~= tokens_from(s@, 0));
    }
    out
}

} // verus!
