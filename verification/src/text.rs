//! Paths as text: segments between slashes, prefixes and what follows them.

use vstd::prelude::*;
use vstd::string::StringExecFns;

verus! {

/// The number of characters before the first `c` of a text: its whole length
/// where it holds none.
pub open spec fn first_place(s: Seq<char>, c: char) -> nat
    decreases s.len(),
{
    if s.len() == 0 || s[0] == c {
        0
    } else {
        1 + first_place(s.skip(1), c)
    }
}

/// The number of characters before the first `/` of a text: its whole length
/// where it holds none.
pub open spec fn first_slash(s: Seq<char>) -> nat {
    first_place(s, '/')
}

/// The pieces of a text between its slashes, in order. A text without a slash
/// is its own single piece, the empty text too.
pub open spec fn split(s: Seq<char>) -> Seq<Seq<char>>
    decreases s.len(),
{
    let i = first_slash(s) as int;
    if 0 <= i < s.len() {
        seq![s.take(i)] + split(s.skip(i + 1))
    } else {
        seq![s]
    }
}

/// The segments of a path: the pieces after its leading slash, and `None`
/// for a path that does not begin with one.
pub open spec fn path_segments(path: Seq<char>) -> Option<Seq<Seq<char>>> {
    if path.len() > 0 && path[0] == '/' {
        Some(split(path.skip(1)))
    } else {
        None
    }
}

/// The characters that the first `k` segments take up in a path, each with
/// the slash before it.
pub open spec fn prefix_len(segments: Seq<Seq<char>>, k: nat) -> nat
    decreases k,
{
    if k == 0 || segments.len() == 0 {
        0
    } else {
        segments[0].len() + 1 + prefix_len(segments.skip(1), (k - 1) as nat)
    }
}

/// What is left of a path behind its first `k` segments.
pub open spec fn suffix_after(path: Seq<char>, segments: Seq<Seq<char>>, k: nat) -> Seq<char> {
    let n = prefix_len(segments, k) as int;
    if n <= path.len() {
        path.skip(n)
    } else {
        Seq::empty()
    }
}

/// The place of the last slash of a text, and -1 where it holds none.
pub open spec fn last_slash_index(s: Seq<char>) -> int
    decreases s.len(),
{
    if s.len() == 0 {
        -1
    } else if s.last() == '/' {
        s.len() - 1
    } else {
        last_slash_index(s.drop_last())
    }
}

/// A text without every `pattern` at its end.
pub open spec fn trim_end(s: Seq<char>, pattern: Seq<char>) -> Seq<char>
    decreases s.len(),
{
    if pattern.len() > 0 && pattern.is_suffix_of(s) {
        trim_end(s.take(s.len() - pattern.len()), pattern)
    } else {
        s
    }
}

/// The views of a sequence of strings.
pub open spec fn texts(v: Seq<String>) -> Seq<Seq<char>> {
    Seq::new(v.len(), |i: int| v[i]@)
}

/// Whether a text ends in a slash.
pub open spec fn slash_ended(s: Seq<char>) -> bool {
    s.len() > 0 && s[s.len() - 1] == '/'
}

/// The first `c` lies within the text, and nothing before it is a `c`.
pub proof fn lemma_first_place_bound(s: Seq<char>, c: char)
    ensures
        first_place(s, c) <= s.len(),
        first_place(s, c) < s.len() ==> s[first_place(s, c) as int] == c,
        forall|j: int| 0 <= j < first_place(s, c) ==> s[j] != c,
    decreases s.len(),
{
    if s.len() == 0 || s[0] == c {
    } else {
        let t = s.skip(1);
        lemma_first_place_bound(t, c);
        assert forall|j: int| 0 <= j < first_place(s, c) implies s[j] != c by {
            if j > 0 {
                assert(t[j - 1] == s[j]);
            }
        }
        if first_place(s, c) < s.len() {
            assert(t[first_place(t, c) as int] == s[first_place(s, c) as int]);
        }
    }
}

/// The first `c` is where the first one is seen.
pub proof fn lemma_first_place_at(s: Seq<char>, c: char, k: int)
    requires
        0 <= k <= s.len(),
        forall|j: int| 0 <= j < k ==> s[j] != c,
        k < s.len() ==> s[k] == c,
    ensures
        first_place(s, c) == k,
{
    lemma_first_place_bound(s, c);
    let f = first_place(s, c) as int;
    if f < k {
        assert(s[f] == c);
    } else if f > k {
        assert(s[k] != c);
    }
}

/// The first slash lies within the text, and nothing before it is a slash.
pub proof fn lemma_first_slash_bound(s: Seq<char>)
    ensures
        first_slash(s) <= s.len(),
        first_slash(s) < s.len() ==> s[first_slash(s) as int] == '/',
        forall|j: int| 0 <= j < first_slash(s) ==> s[j] != '/',
{
    lemma_first_place_bound(s, '/');
}

/// The first slash is where the first one is seen.
pub proof fn lemma_first_slash_at(s: Seq<char>, k: int)
    requires
        0 <= k <= s.len(),
        forall|j: int| 0 <= j < k ==> s[j] != '/',
        k < s.len() ==> s[k] == '/',
    ensures
        first_slash(s) == k,
{
    lemma_first_place_at(s, '/', k);
}

/// A step of `prefix_len`: one more segment adds its length and a slash.
pub proof fn lemma_prefix_len_step(segments: Seq<Seq<char>>, k: nat)
    requires
        k < segments.len(),
    ensures
        prefix_len(segments, k + 1) == prefix_len(segments, k) + segments[k as int].len() + 1,
    decreases k,
{
    if k == 0 {
        assert(prefix_len(segments.skip(1), 0) == 0);
    } else {
        let rest = segments.skip(1);
        lemma_prefix_len_step(rest, (k - 1) as nat);
        assert(rest[k - 1] == segments[k as int]);
    }
}

/// All segments of a split text, each with a slash, take up one character
/// more than the text.
pub proof fn lemma_split_total(s: Seq<char>)
    ensures
        split(s).len() >= 1,
        prefix_len(split(s), split(s).len()) == s.len() + 1,
    decreases s.len(),
{
    lemma_first_slash_bound(s);
    let i = first_slash(s) as int;
    if 0 <= i < s.len() {
        let rest = s.skip(i + 1);
        lemma_split_total(rest);
        let all = split(s);
        assert(all == seq![s.take(i)] + split(rest));
        assert(all.skip(1) =~= split(rest));
        assert(all[0] == s.take(i));
    } else {
        let all = split(s);
        assert(all == seq![s]);
        assert(all.skip(1) =~= Seq::<Seq<char>>::empty());
        assert(prefix_len(all.skip(1), 0) == 0);
    }
}

/// The first `k` segments take up no more than all of them.
pub proof fn lemma_prefix_len_monotonic(segments: Seq<Seq<char>>, k: nat, m: nat)
    requires
        k <= m <= segments.len(),
    ensures
        prefix_len(segments, k) <= prefix_len(segments, m),
    decreases m - k,
{
    if k < m {
        lemma_prefix_len_step(segments, k);
        lemma_prefix_len_monotonic(segments, k + 1, m);
    }
}

/// The first `k` segments of a path lie within the path.
pub proof fn lemma_prefix_in_path(path: Seq<char>, k: nat)
    requires
        path_segments(path).is_some(),
        k <= path_segments(path).unwrap().len(),
    ensures
        prefix_len(path_segments(path).unwrap(), k) <= path.len(),
{
    let segments = path_segments(path).unwrap();
    lemma_split_total(path.skip(1));
    lemma_prefix_len_monotonic(segments, k, segments.len());
}

/// The text of two texts, one after the other.
pub fn join(a: &str, b: &str) -> (r: String)
    ensures
        r@ == a@ + b@,
{
    let mut s = a.to_owned();
    s.append(b);
    s
}

/// Whether a text ends in a slash.
pub fn ends_with_slash(s: &str) -> (r: bool)
    ensures
        r == slash_ended(s@),
{
    let n = s.unicode_len();
    n > 0 && s.get_char(n - 1) == '/'
}

/// Whether a text begins with another.
pub fn has_prefix(s: &str, prefix: &str) -> (r: bool)
    ensures
        r == prefix@.is_prefix_of(s@),
{
    let n = s.unicode_len();
    let m = prefix.unicode_len();
    if m > n {
        return false;
    }
    let mut i: usize = 0;
    while i < m
        invariant
            i <= m <= n,
            n == s@.len(),
            m == prefix@.len(),
            forall|j: int| 0 <= j < i ==> s@[j] == prefix@[j],
        decreases m - i,
    {
        if s.get_char(i) != prefix.get_char(i) {
            assert(s@.subrange(0, m as int)[i as int] != prefix@[i as int]);
            return false;
        }
        i += 1;
    }
    assert(s@.subrange(0, m as int) =~= prefix@);
    true
}

/// The place of the last slash of a text, counted in characters.
pub fn last_slash(s: &str) -> (r: Option<usize>)
    ensures
        match r {
            Some(i) => last_slash_index(s@) == i && i < s@.len(),
            None => last_slash_index(s@) == -1,
        },
{
    let mut i: usize = s.unicode_len();
    assert(s@.take(i as int) =~= s@);
    while i > 0
        invariant
            i <= s@.len(),
            last_slash_index(s@) == last_slash_index(s@.take(i as int)),
        decreases i,
    {
        let ghost head = s@.take(i as int);
        i -= 1;
        assert(head.last() == s@[i as int]);
        assert(head.drop_last() =~= s@.take(i as int));
        if s.get_char(i) == '/' {
            return Some(i);
        }
    }
    None
}

/// The segments of a path, as `path_segments` defines them.
pub fn split_segments(path: &str) -> (r: Option<Vec<String>>)
    ensures
        match r {
            Some(v) => path_segments(path@) == Some(texts(v@)),
            None => path_segments(path@).is_none(),
        },
{
    let n = path.unicode_len();
    if n == 0 || path.get_char(0) != '/' {
        return None;
    }
    let mut segments: Vec<String> = Vec::new();
    let mut start: usize = 1;
    let mut i: usize = 1;
    while i < n
        invariant
            1 <= start <= i <= n,
            n == path@.len(),
            forall|j: int| start <= j < i ==> path@[j] != '/',
            split(path@.skip(1)) == texts(segments@) + split(path@.skip(start as int)),
        decreases n - i,
    {
        if path.get_char(i) == '/' {
            let piece = path.substring_char(start, i).to_owned();
            proof {
                let s = path@.skip(start as int);
                let k = i - start;
                assert forall|j: int| 0 <= j < k implies s[j] != '/' by {
                    assert(s[j] == path@[start + j]);
                }
                assert(s[k] == path@[i as int]);
                lemma_first_slash_at(s, k);
                assert(s.take(k) =~= path@.subrange(start as int, i as int));
                assert(s.skip(k + 1) =~= path@.skip(i + 1));
                assert(split(s) == seq![s.take(k)] + split(s.skip(k + 1)));
                assert(texts(segments@.push(piece)) =~= texts(segments@) + seq![piece@]);
                assert(texts(segments@) + (seq![s.take(k)] + split(s.skip(k + 1))) =~= (texts(
                    segments@,
                ) + seq![piece@]) + split(path@.skip(i + 1)));
            }
            segments.push(piece);
            start = i + 1;
        }
        i += 1;
    }
    let piece = path.substring_char(start, n).to_owned();
    proof {
        let s = path@.skip(start as int);
        assert forall|j: int| 0 <= j < s.len() implies s[j] != '/' by {
            assert(s[j] == path@[start + j]);
        }
        lemma_first_slash_at(s, s.len() as int);
        assert(split(s) == seq![s]);
        assert(s =~= path@.subrange(start as int, n as int));
        assert(texts(segments@.push(piece)) =~= texts(segments@) + seq![piece@]);
    }
    segments.push(piece);
    Some(segments)
}

/// A text from its `from`-th character on.
pub fn tail_from(s: &str, from: usize) -> (r: &str)
    requires
        from <= s@.len(),
    ensures
        r@ == s@.skip(from as int),
{
    let n = s.unicode_len();
    let r = s.substring_char(from, n);
    assert(s@.subrange(from as int, n as int) =~= s@.skip(from as int));
    r
}

/// A text up to its `to`-th character.
pub fn head_to(s: &str, to: usize) -> (r: &str)
    requires
        to <= s@.len(),
    ensures
        r@ == s@.take(to as int),
{
    let r = s.substring_char(0, to);
    assert(s@.subrange(0, to as int) =~= s@.take(to as int));
    r
}

/// Whether two texts are the same.
pub fn same_text(a: &str, b: &str) -> (r: bool)
    ensures
        r == (a@ == b@),
{
    let n = a.unicode_len();
    let m = b.unicode_len();
    if n != m {
        return false;
    }
    let r = has_prefix(a, b);
    assert(a@.subrange(0, n as int) =~= a@);
    r
}

/// Whether a text ends with another.
pub fn has_suffix(s: &str, suffix: &str) -> (r: bool)
    ensures
        r == suffix@.is_suffix_of(s@),
{
    let n = s.unicode_len();
    let m = suffix.unicode_len();
    if m > n {
        return false;
    }
    let tail = tail_from(s, n - m);
    assert(s@.subrange(n - m, n as int) =~= s@.skip(n - m));
    same_text(tail, suffix)
}

/// The place of the first `c` of a text, counted in characters.
pub fn find_char(s: &str, c: char) -> (r: Option<usize>)
    ensures
        match r {
            Some(i) => first_place(s@, c) == i && i < s@.len(),
            None => first_place(s@, c) == s@.len(),
        },
{
    let n = s.unicode_len();
    let mut i: usize = 0;
    while i < n
        invariant
            i <= n,
            n == s@.len(),
            forall|j: int| 0 <= j < i ==> s@[j] != c,
        decreases n - i,
    {
        if s.get_char(i) == c {
            proof {
                lemma_first_place_at(s@, c, i as int);
            }
            return Some(i);
        }
        i += 1;
    }
    proof {
        lemma_first_place_at(s@, c, n as int);
    }
    None
}

/// A text without every `pattern` at its end.
pub fn trim_end_matches<'a>(s: &'a str, pattern: &str) -> (r: &'a str)
    ensures
        r@ == trim_end(s@, pattern@),
{
    let width = pattern.unicode_len();
    let mut end: usize = s.unicode_len();
    assert(s@.take(end as int) =~= s@);
    if width == 0 {
        return s;
    }
    loop
        invariant
            width == pattern@.len(),
            width > 0,
            end <= s@.len(),
            trim_end(s@, pattern@) == trim_end(s@.take(end as int), pattern@),
        decreases end,
    {
        let head = head_to(s, end);
        if end >= width && has_suffix(head, pattern) {
            assert(head@.take(end - width) =~= s@.take(end - width));
            end = end - width;
        } else {
            assert(end < width ==> !pattern@.is_suffix_of(head@));
            return head;
        }
    }
}

} // verus!
