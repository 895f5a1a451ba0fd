//! Character-level text primitives: whitespace, trimming and splitting on a
//! delimiter. Everything is stated over `Seq<char>`, the view of `str` and
//! `String`.

use vstd::prelude::*;

verus! {

/// `String::push`: appends one character to the end of the string.
pub assume_specification[ String::push ](s: &mut String, c: char)
    ensures
        final(s)@ == old(s)@.push(c),
;

/// The characters with the Unicode `White_Space` property.
pub open spec fn is_whitespace(c: char) -> bool {
    let u = c as u32;
    ||| 0x09 <= u <= 0x0D
    ||| u == 0x20
    ||| u == 0x85
    ||| u == 0xA0
    ||| u == 0x1680
    ||| 0x2000 <= u <= 0x200A
    ||| u == 0x2028
    ||| u == 0x2029
    ||| u == 0x202F
    ||| u == 0x205F
    ||| u == 0x3000
}

/// `s` without its leading whitespace.
pub open spec fn trim_start(s: Seq<char>) -> Seq<char>
    decreases s.len(),
{
    if s.len() > 0 && is_whitespace(s[0]) {
        trim_start(s.drop_first())
    } else {
        s
    }
}

/// `s` without its trailing whitespace.
pub open spec fn trim_end(s: Seq<char>) -> Seq<char>
    decreases s.len(),
{
    if s.len() > 0 && is_whitespace(s.last()) {
        trim_end(s.drop_last())
    } else {
        s
    }
}

/// `s` without leading and trailing whitespace.
pub open spec fn trim(s: Seq<char>) -> Seq<char> {
    trim_end(trim_start(s))
}

/// `pat` occurs in `s` at index `i`.
pub open spec fn matches_at(s: Seq<char>, pat: Seq<char>, i: int) -> bool {
    0 <= i && i + pat.len() <= s.len() && s.subrange(i, i + pat.len()) == pat
}

/// The index of the first occurrence of `pat` in `s` at or after `from`, or
/// `-1` when there is none.
pub open spec fn first_match(s: Seq<char>, pat: Seq<char>, from: int) -> int
    decreases s.len() - from,
{
    if from < 0 || from + pat.len() > s.len() {
        -1
    } else if matches_at(s, pat, from) {
        from
    } else if from < s.len() {
        first_match(s, pat, from + 1)
    } else {
        -1
    }
}

/// `pat` occurs somewhere in `s`.
pub open spec fn contains(s: Seq<char>, pat: Seq<char>) -> bool {
    exists|i: int| matches_at(s, pat, i)
}

/// The pieces of `s` between successive occurrences of a non-empty `pat`,
/// found from the left and never overlapping.
pub open spec fn split_nonempty(s: Seq<char>, pat: Seq<char>) -> Seq<Seq<char>>
    recommends
        pat.len() > 0,
    decreases s.len(),
{
    let i = first_match(s, pat, 0);
    if pat.len() == 0 || i < 0 || i + pat.len() > s.len() {
        seq![s]
    } else {
        seq![s.take(i)] + split_nonempty(s.skip(i + pat.len()), pat)
    }
}

/// The pieces that `pat` cuts `s` into. There is always at least one piece.
/// The empty pattern occurs before, between and after all characters: it
/// gives an empty piece, every character as a piece of its own, and an empty
/// piece again.
pub open spec fn split_on(s: Seq<char>, pat: Seq<char>) -> Seq<Seq<char>> {
    if pat.len() == 0 {
        seq![Seq::<char>::empty()] + Seq::new(s.len(), |i: int| seq![s[i]]) + seq![
            Seq::<char>::empty(),
        ]
    } else {
        split_nonempty(s, pat)
    }
}

/// All of `parts` one after another.
pub open spec fn concat(parts: Seq<Seq<char>>) -> Seq<char>
    decreases parts.len(),
{
    if parts.len() == 0 {
        Seq::<char>::empty()
    } else {
        concat(parts.drop_last()) + parts.last()
    }
}

/// The character sequences that a sequence of strings holds.
pub open spec fn views(strings: Seq<String>) -> Seq<Seq<char>> {
    Seq::new(strings.len(), |i: int| strings[i]@)
}

/// `s` after taking `pat` off its front as often as it stands there.
pub open spec fn trim_start_matches(s: Seq<char>, pat: Seq<char>) -> Seq<char>
    recommends
        pat.len() > 0,
    decreases s.len(),
{
    if pat.len() > 0 && matches_at(s, pat, 0) {
        trim_start_matches(s.skip(pat.len() as int), pat)
    } else {
        s
    }
}

/// What `first_match` finds is an occurrence, and the first one.
pub proof fn lemma_first_match(s: Seq<char>, pat: Seq<char>, from: int)
    requires
        0 <= from,
    ensures
        ({
            let r = first_match(s, pat, from);
            &&& r == -1 || (from <= r && matches_at(s, pat, r))
            &&& forall|j: int| from <= j && (j < r || r == -1) ==> !matches_at(s, pat, j)
        }),
    decreases s.len() - from,
{
    if from + pat.len() > s.len() {
    } else if matches_at(s, pat, from) {
    } else if from < s.len() {
        lemma_first_match(s, pat, from + 1);
    } else {
        assert(s.subrange(from, from + pat.len()) =~= pat);
    }
}

/// An occurrence with none before it is what `first_match` finds.
pub proof fn lemma_first_match_is(s: Seq<char>, pat: Seq<char>, from: int, at: int)
    requires
        0 <= from <= at,
        matches_at(s, pat, at),
        forall|j: int| from <= j < at ==> !matches_at(s, pat, j),
    ensures
        first_match(s, pat, from) == at,
    decreases at - from,
{
    if from < at {
        lemma_first_match_is(s, pat, from + 1, at);
    }
}

/// Without an occurrence at or after `from`, `first_match` finds none.
pub proof fn lemma_first_match_none(s: Seq<char>, pat: Seq<char>, from: int)
    requires
        0 <= from,
        forall|j: int| from <= j ==> !matches_at(s, pat, j),
    ensures
        first_match(s, pat, from) == -1,
    decreases s.len() - from,
{
    if from + pat.len() <= s.len() && from < s.len() {
        lemma_first_match_none(s, pat, from + 1);
    }
}

/// An occurrence in a suffix of `s` is an occurrence in `s`, moved by the
/// length of what was skipped.
pub proof fn lemma_matches_at_skip(s: Seq<char>, pat: Seq<char>, start: int, j: int)
    requires
        0 <= start <= s.len(),
        0 <= j,
    ensures
        matches_at(s.skip(start), pat, j) == matches_at(s, pat, start + j),
{
    if j + pat.len() <= s.len() - start {
        assert(s.skip(start).subrange(j, j + pat.len()) =~= s.subrange(
            start + j,
            start + j + pat.len(),
        ));
    }
}

/// Trimming the front leaves a suffix that does not start with whitespace.
pub proof fn lemma_trim_start(s: Seq<char>)
    ensures
        ({
            let t = trim_start(s);
            let k = s.len() - t.len();
            &&& 0 <= k <= s.len()
            &&& t == s.skip(k)
            &&& forall|j: int| 0 <= j < k ==> is_whitespace(s[j])
            &&& t.len() > 0 ==> !is_whitespace(t[0])
        }),
    decreases s.len(),
{
    if s.len() > 0 && is_whitespace(s[0]) {
        let rest = s.drop_first();
        lemma_trim_start(rest);
        let t = trim_start(rest);
        let k = rest.len() - t.len();
        assert(rest.skip(k) =~= s.skip(k + 1));
        assert forall|j: int| 0 <= j < k + 1 implies is_whitespace(s[j]) by {
            if j > 0 {
                assert(s[j] == rest[j - 1]);
            }
        }
    } else {
        assert(s.skip(0) =~= s);
    }
}

/// Trimming the end leaves a prefix that does not end with whitespace.
pub proof fn lemma_trim_end(s: Seq<char>)
    ensures
        ({
            let t = trim_end(s);
            &&& t.len() <= s.len()
            &&& t == s.take(t.len() as int)
            &&& forall|j: int| t.len() <= j < s.len() ==> is_whitespace(s[j])
            &&& t.len() > 0 ==> !is_whitespace(t.last())
        }),
    decreases s.len(),
{
    if s.len() > 0 && is_whitespace(s.last()) {
        let rest = s.drop_last();
        lemma_trim_end(rest);
        let t = trim_end(rest);
        assert(rest.take(t.len() as int) =~= s.take(t.len() as int));
        assert forall|j: int| t.len() <= j < s.len() implies is_whitespace(s[j]) by {
            if j < s.len() - 1 {
                assert(s[j] == rest[j]);
            }
        }
    } else {
        assert(s.take(s.len() as int) =~= s);
    }
}

/// The first non-whitespace character at or after `lo` and the end of the
/// last one before `hi` bound the trimmed text.
pub proof fn lemma_trim_bounds(s: Seq<char>, a: int, b: int)
    requires
        0 <= a <= b <= s.len(),
        forall|j: int| 0 <= j < a ==> is_whitespace(s[j]),
        forall|j: int| b <= j < s.len() ==> is_whitespace(s[j]),
        a < b ==> !is_whitespace(s[a]) && !is_whitespace(s[b - 1]),
    ensures
        trim(s) == s.subrange(a, b),
{
    lemma_trim_start(s);
    let t = trim_start(s);
    let k = s.len() - t.len();
    if k < a {
        assert(is_whitespace(s[k]));
        assert(t[0] == s[k]);
    }
    if a < k {
        if a < b {
            assert(is_whitespace(s[a]));
        } else {
            // Everything is whitespace, so the front trim cannot stop early.
            if k < s.len() {
                assert(t[0] == s[k]);
                assert(is_whitespace(s[k]));
            }
        }
    }
    if a == b && k < s.len() {
        assert(t[0] == s[k]);
        assert(is_whitespace(s[k]));
    }
    lemma_trim_end(t);
    let u = trim_end(t);
    if a < b {
        assert(k == a);
        let e = u.len() as int;
        if e < b - a {
            assert(is_whitespace(t[b - a - 1]));
            assert(t[b - a - 1] == s[b - 1]);
        }
        if e > b - a {
            assert(u.last() == t[e - 1]);
            assert(t[e - 1] == s[k + e - 1]);
        }
        assert(u =~= s.subrange(a, b));
    } else {
        assert(k == s.len());
        assert(u =~= s.subrange(a, b));
    }
}

/// `pat` does not occur in `x` followed by `pat` before the end of `x`: the
/// first occurrence there is the one that was put behind `x`.
pub open spec fn free_before_end(x: Seq<char>, pat: Seq<char>) -> bool {
    forall|i: int| 0 <= i < x.len() ==> !matches_at(x + pat, pat, i)
}

/// There is always a piece.
pub proof fn lemma_split_has_pieces(s: Seq<char>, pat: Seq<char>)
    ensures
        split_on(s, pat).len() >= 1,
    decreases s.len(),
{
    if pat.len() > 0 {
        let i = first_match(s, pat, 0);
        if !(i < 0 || i + pat.len() > s.len()) {
            lemma_split_has_pieces(s.skip(i + pat.len()), pat);
        }
    }
}

/// Text without the pattern is one piece.
pub proof fn lemma_split_unmarked(s: Seq<char>, pat: Seq<char>)
    requires
        pat.len() > 0,
        !contains(s, pat),
    ensures
        split_on(s, pat) == seq![s],
{
    lemma_first_match_none(s, pat, 0);
}

/// Text up to the first occurrence of the pattern is the first piece, and
/// the pieces of what follows the occurrence follow it.
pub proof fn lemma_split_delimited(x: Seq<char>, pat: Seq<char>, rest: Seq<char>)
    requires
        pat.len() > 0,
        free_before_end(x, pat),
    ensures
        split_on(x + pat + rest, pat) == seq![x] + split_on(rest, pat),
{
    let s = x + pat + rest;
    let at = x.len() as int;
    assert(s.subrange(at, at + pat.len()) =~= pat);
    assert forall|j: int| 0 <= j < at implies !matches_at(s, pat, j) by {
        assert(!matches_at(x + pat, pat, j));
        assert(s.subrange(j, j + pat.len()) =~= (x + pat).subrange(j, j + pat.len()));
    }
    lemma_first_match_is(s, pat, 0, at);
    assert(s.take(at) =~= x);
    assert(s.skip(at + pat.len()) =~= rest);
}

/// A pattern of one character occurs where that character stands.
pub proof fn lemma_matches_char(s: Seq<char>, c: char, j: int)
    ensures
        matches_at(s, seq![c], j) == (0 <= j < s.len() && s[j] == c),
{
    if 0 <= j < s.len() {
        if s[j] == c {
            assert(s.subrange(j, j + 1) =~= seq![c]);
        } else {
            assert(s.subrange(j, j + 1)[0] == s[j]);
        }
    }
}

/// Text without the character `c`, put behind `s`, makes the last piece of
/// `s` longer and leaves the pieces before it as they were.
pub proof fn lemma_split_append_unmarked(s: Seq<char>, c: char, x: Seq<char>)
    requires
        forall|i: int| 0 <= i < x.len() ==> x[i] != c,
    ensures
        split_on(s, seq![c]).len() >= 1,
        split_on(s + x, seq![c]) == split_on(s, seq![c]).drop_last().push(
            split_on(s, seq![c]).last() + x,
        ),
    decreases s.len(),
{
    let pat = seq![c];
    let pieces = split_on(s, pat);
    lemma_split_has_pieces(s, pat);
    let i = first_match(s, pat, 0);
    lemma_first_match(s, pat, 0);
    if i >= 0 {
        assert forall|j: int| 0 <= j < i implies !matches_at(s + x, pat, j) by {
            lemma_matches_char(s, c, j);
            lemma_matches_char(s + x, c, j);
        }
        lemma_matches_char(s, c, i);
        lemma_matches_char(s + x, c, i);
        lemma_first_match_is(s + x, pat, 0, i);
        let rest = s.skip(i + 1);
        assert((s + x).take(i) =~= s.take(i));
        assert((s + x).skip(i + 1) =~= rest + x);
        lemma_split_append_unmarked(rest, c, x);
        let later = split_on(rest, pat);
        assert(pieces =~= seq![s.take(i)] + later);
        assert(pieces.drop_last() =~= seq![s.take(i)] + later.drop_last());
        assert(split_on(s + x, pat) =~= pieces.drop_last().push(pieces.last() + x));
    } else {
        assert forall|j: int| 0 <= j implies !matches_at(s + x, pat, j) by {
            lemma_matches_char(s, c, j);
            lemma_matches_char(s + x, c, j);
        }
        lemma_first_match_none(s + x, pat, 0);
        assert(pieces =~= seq![s]);
        assert(split_on(s + x, pat) =~= pieces.drop_last().push(pieces.last() + x));
    }
}

/// The character `c`, put behind `s`, ends the last piece of `s` and starts
/// an empty one.
pub proof fn lemma_split_append_mark(s: Seq<char>, c: char)
    ensures
        split_on(s + seq![c], seq![c]) == split_on(s, seq![c]).push(Seq::<char>::empty()),
    decreases s.len(),
{
    let pat = seq![c];
    let pieces = split_on(s, pat);
    let i = first_match(s, pat, 0);
    lemma_first_match(s, pat, 0);
    if i >= 0 {
        assert forall|j: int| 0 <= j < i implies !matches_at(s + pat, pat, j) by {
            lemma_matches_char(s, c, j);
            lemma_matches_char(s + pat, c, j);
        }
        lemma_matches_char(s, c, i);
        lemma_matches_char(s + pat, c, i);
        lemma_first_match_is(s + pat, pat, 0, i);
        let rest = s.skip(i + 1);
        assert((s + pat).take(i) =~= s.take(i));
        assert((s + pat).skip(i + 1) =~= rest + pat);
        lemma_split_append_mark(rest, c);
        assert(split_on(s + pat, pat) =~= pieces.push(Seq::<char>::empty()));
    } else {
        let at = s.len() as int;
        assert forall|j: int| 0 <= j < at implies !matches_at(s + pat, pat, j) by {
            lemma_matches_char(s, c, j);
            lemma_matches_char(s + pat, c, j);
        }
        lemma_matches_char(s + pat, c, at);
        lemma_first_match_is(s + pat, pat, 0, at);
        assert((s + pat).take(at) =~= s);
        let tail = (s + pat).skip(at + 1);
        assert(tail =~= Seq::<char>::empty());
        assert(first_match(tail, pat, 0) == -1);
        assert(split_nonempty(tail, pat) =~= seq![tail]);
        assert(pieces =~= seq![s]);
        assert(split_on(s + pat, pat) =~= pieces.push(Seq::<char>::empty()));
    }
}

/// The concatenation of one more part.
pub proof fn lemma_concat_push(parts: Seq<Seq<char>>, part: Seq<char>)
    ensures
        concat(parts.push(part)) == concat(parts) + part,
{
    assert(parts.push(part).drop_last() =~= parts);
}

pub fn whitespace(c: char) -> (r: bool)
    ensures
        r == is_whitespace(c),
{
    let u: u32 = c as u32;
    (0x09 <= u && u <= 0x0D) || u == 0x20 || u == 0x85 || u == 0xA0 || u == 0x1680 || (0x2000 <= u
        && u <= 0x200A) || u == 0x2028 || u == 0x2029 || u == 0x202F || u == 0x205F || u == 0x3000
}

/// The characters of `s`.
pub fn chars_of(s: &str) -> (v: Vec<char>)
    ensures
        v@ == s@,
{
    let mut v: Vec<char> = Vec::new();
    for c in it: s.chars()
        invariant
            v@ == it.seq().take(it.index() as int),
            it.seq() == s@,
    {
        v.push(c);
    }
    v
}

/// The string made of the characters of `v` from `lo` up to `hi`.
pub fn string_of(v: &Vec<char>, lo: usize, hi: usize) -> (s: String)
    requires
        lo <= hi <= v.len(),
    ensures
        s@ == v@.subrange(lo as int, hi as int),
{
    let mut s = String::new();
    let mut i: usize = lo;
    while i < hi
        invariant
            lo <= i <= hi <= v.len(),
            s@ == v@.subrange(lo as int, i as int),
        decreases hi - i,
    {
        s.push(v[i]);
        i += 1;
    }
    s
}

/// Where the trimmed text of `v[lo..hi]` starts and ends.
pub fn trim_range(v: &Vec<char>, lo: usize, hi: usize) -> (r: (usize, usize))
    requires
        lo <= hi <= v.len(),
    ensures
        lo <= r.0 <= r.1 <= hi,
        v@.subrange(r.0 as int, r.1 as int) == trim(v@.subrange(lo as int, hi as int)),
{
    let mut a: usize = lo;
    while a < hi && whitespace(v[a])
        invariant
            lo <= a <= hi <= v.len(),
            forall|j: int| lo <= j < a ==> is_whitespace(v@[j]),
        decreases hi - a,
    {
        a += 1;
    }
    let mut b: usize = hi;
    while a < b && whitespace(v[b - 1])
        invariant
            lo <= a <= b <= hi <= v.len(),
            forall|j: int| b <= j < hi ==> is_whitespace(v@[j]),
        decreases b - a,
    {
        b -= 1;
    }
    proof {
        let s = v@.subrange(lo as int, hi as int);
        lemma_trim_bounds(s, a - lo, b - lo);
        assert(s.subrange(a - lo, b - lo) =~= v@.subrange(a as int, b as int));
    }
    (a, b)
}

/// `s` without leading and trailing whitespace.
pub fn trimmed(s: &str) -> (r: String)
    ensures
        r@ == trim(s@),
{
    let v = chars_of(s);
    let (a, b) = trim_range(&v, 0, v.len());
    proof {
        assert(v@.subrange(0, v.len() as int) =~= v@);
    }
    string_of(&v, a, b)
}

/// Whether `pat` occurs in `v` at index `i`.
pub fn occurs_at(v: &Vec<char>, pat: &Vec<char>, i: usize) -> (r: bool)
    requires
        i <= v.len(),
    ensures
        r == matches_at(v@, pat@, i as int),
{
    if pat.len() > v.len() - i {
        return false;
    }
    let mut k: usize = 0;
    while k < pat.len()
        invariant
            k <= pat.len(),
            i + pat.len() <= v.len(),
            forall|j: int| 0 <= j < k ==> v@[i + j] == pat@[j],
        decreases pat.len() - k,
    {
        if v[i + k] != pat[k] {
            proof {
                let sub = v@.subrange(i as int, i + pat.len());
                assert(sub[k as int] != pat@[k as int]);
            }
            return false;
        }
        k += 1;
    }
    proof {
        assert(v@.subrange(i as int, i + pat.len()) =~= pat@);
    }
    true
}

/// The pieces that `pat` cuts `content` into.
pub fn split(content: &str, pat: &str) -> (pieces: Vec<String>)
    ensures
        views(pieces@) == split_on(content@, pat@),
{
    let v = chars_of(content);
    let p = chars_of(pat);
    split_chars(&v, &p)
}

/// The pieces that `pat` cuts `v` into.
pub fn split_chars(v: &Vec<char>, pat: &Vec<char>) -> (pieces: Vec<String>)
    ensures
        views(pieces@) == split_on(v@, pat@),
{
    let mut pieces: Vec<String> = Vec::new();
    if pat.len() == 0 {
        pieces.push(String::new());
        let mut i: usize = 0;
        while i < v.len()
            invariant
                i <= v.len(),
                pieces@.len() == i + 1,
                pieces@[0]@ == Seq::<char>::empty(),
                forall|j: int| 0 <= j < i ==> (#[trigger] pieces@[j + 1])@ == seq![v@[j]],
            decreases v.len() - i,
        {
            let piece = string_of(v, i, i + 1);
            proof {
                assert(v@.subrange(i as int, i + 1) =~= seq![v@[i as int]]);
            }
            pieces.push(piece);
            i += 1;
        }
        pieces.push(String::new());
        proof {
            let want = split_on(v@, pat@);
            assert(views(pieces@).len() == want.len());
            assert forall|j: int| 0 <= j < want.len() implies views(pieces@)[j] == want[j] by {
                if 0 < j && j <= v.len() {
                    assert((#[trigger] pieces@[(j - 1) + 1])@ == seq![v@[j - 1]]);
                }
            }
            assert(views(pieces@) =~= want);
        }
        return pieces;
    }
    let n = v.len();
    let m = pat.len();
    let mut start: usize = 0;
    let mut i: usize = 0;
    proof {
        assert(v@.skip(0) =~= v@);
        assert(views(pieces@) + split_nonempty(v@, pat@) =~= split_nonempty(v@, pat@));
    }
    while i < n && m <= n - i
        invariant
            n == v.len(),
            m == pat.len(),
            m > 0,
            start <= i <= n,
            split_on(v@, pat@) == views(pieces@) + split_nonempty(v@.skip(start as int), pat@),
            forall|j: int| start <= j < i ==> !matches_at(v@, pat@, j),
        decreases n - i,
    {
        if occurs_at(v, pat, i) {
            let piece = string_of(v, start, i);
            proof {
                let rest = v@.skip(start as int);
                assert forall|j: int| 0 <= j < i - start implies !matches_at(rest, pat@, j) by {
                    lemma_matches_at_skip(v@, pat@, start as int, j);
                }
                lemma_matches_at_skip(v@, pat@, start as int, i - start);
                lemma_first_match_is(rest, pat@, 0, i - start);
                assert(rest.take(i - start) =~= v@.subrange(start as int, i as int));
                assert(rest.skip(i - start + m) =~= v@.skip(i + m));
                assert(views(pieces@.push(piece)) =~= views(pieces@) + seq![piece@]);
            }
            pieces.push(piece);
            i += m;
            start = i;
        } else {
            i += 1;
        }
    }
    let piece = string_of(v, start, n);
    proof {
        let rest = v@.skip(start as int);
        assert forall|j: int| 0 <= j implies !matches_at(rest, pat@, j) by {
            lemma_matches_at_skip(v@, pat@, start as int, j);
        }
        lemma_first_match_none(rest, pat@, 0);
        assert(rest =~= v@.subrange(start as int, n as int));
        assert(views(pieces@.push(piece)) =~= views(pieces@) + seq![piece@]);
    }
    pieces.push(piece);
    pieces
}

/// Whether two strings hold the same characters.
pub fn same_text(a: &str, b: &str) -> (r: bool)
    ensures
        r == (a@ == b@),
{
    let x = a.to_owned();
    let y = b.to_owned();
    x == y
}

/// Where `v` starts after taking `pat` off its front, from index `from` on,
/// as often as it stands there.
pub fn trim_start_matches_at(v: &Vec<char>, pat: &Vec<char>, from: usize) -> (start: usize)
    requires
        pat.len() > 0,
        from <= v.len(),
    ensures
        from <= start <= v.len(),
        v@.skip(start as int) == trim_start_matches(v@.skip(from as int), pat@),
{
    let mut start: usize = from;
    while occurs_at(v, pat, start)
        invariant
            pat.len() > 0,
            from <= start <= v.len(),
            trim_start_matches(v@.skip(from as int), pat@) == trim_start_matches(
                v@.skip(start as int),
                pat@,
            ),
        decreases v.len() - start,
    {
        proof {
            lemma_matches_at_skip(v@, pat@, start as int, 0);
            assert(v@.skip(start as int).skip(pat.len() as int) =~= v@.skip(start + pat.len()));
        }
        start += pat.len();
    }
    proof {
        lemma_matches_at_skip(v@, pat@, start as int, 0);
    }
    start
}

/// Where `v` starts without its leading whitespace.
pub fn trim_start_at(v: &Vec<char>) -> (start: usize)
    ensures
        start <= v.len(),
        v@.skip(start as int) == trim_start(v@),
{
    let mut start: usize = 0;
    while start < v.len() && whitespace(v[start])
        invariant
            start <= v.len(),
            forall|j: int| 0 <= j < start ==> is_whitespace(v@[j]),
        decreases v.len() - start,
    {
        start += 1;
    }
    proof {
        lemma_trim_start(v@);
        let rest = trim_start(v@);
        let k = v@.len() - rest.len();
        if k < start {
            assert(rest[0] == v@[k]);
        }
    }
    start
}

/// A copy of `strings`.
pub fn clone_strings(strings: &Vec<String>) -> (copy: Vec<String>)
    ensures
        views(copy@) == views(strings@),
{
    let mut copy: Vec<String> = Vec::new();
    let mut i: usize = 0;
    while i < strings.len()
        invariant
            i <= strings.len(),
            copy@.len() == i,
            forall|j: int| 0 <= j < i ==> (#[trigger] copy@[j])@ == strings@[j]@,
        decreases strings.len() - i,
    {
        copy.push(strings[i].clone());
        i += 1;
    }
    proof {
        assert(views(copy@) =~= views(strings@));
    }
    copy
}

/// Appends the characters of `v` from `lo` up to `hi` to `s`.
pub fn append_chars(s: &mut String, v: &Vec<char>, lo: usize, hi: usize)
    requires
        lo <= hi <= v.len(),
    ensures
        final(s)@ == old(s)@ + v@.subrange(lo as int, hi as int),
{
    let mut i: usize = lo;
    proof {
        assert(s@ =~= old(s)@ + v@.subrange(lo as int, lo as int));
    }
    while i < hi
        invariant
            lo <= i <= hi <= v.len(),
            s@ == old(s)@ + v@.subrange(lo as int, i as int),
        decreases hi - i,
    {
        s.push(v[i]);
        i += 1;
        proof {
            assert(s@ =~= old(s)@ + v@.subrange(lo as int, i as int));
        }
    }
}

} // verus!
