//! Character-level helpers on strings, stated over `Seq<char>`.
//!
//! Each executable helper here behaves as the `str` method of the same name
//! does, and says so over a spec function on the characters of its input.

use vstd::prelude::*;
use vstd::string::StrSliceExecFns;
use vstd::string::StringExecFns;

verus! {

broadcast use vstd::string::group_string_axioms;

/// Unicode `White_Space`, the set that `char::is_whitespace` tests.
pub open spec fn is_ws(c: char) -> bool {
    ||| ('\t' <= c && c <= '\r')
    ||| c == ' '
    ||| c == '\u{85}'
    ||| c == '\u{a0}'
    ||| c == '\u{1680}'
    ||| ('\u{2000}' <= c && c <= '\u{200a}')
    ||| c == '\u{2028}'
    ||| c == '\u{2029}'
    ||| c == '\u{202f}'
    ||| c == '\u{205f}'
    ||| c == '\u{3000}'
}

/// `s` with its leading whitespace removed.
pub open spec fn trim_start(s: Seq<char>) -> Seq<char>
    decreases s.len(),
{
    if s.len() > 0 && is_ws(s[0]) {
        trim_start(s.drop_first())
    } else {
        s
    }
}

/// `s` with its trailing whitespace removed.
pub open spec fn trim_end(s: Seq<char>) -> Seq<char>
    decreases s.len(),
{
    if s.len() > 0 && is_ws(s.last()) {
        trim_end(s.drop_last())
    } else {
        s
    }
}

/// `s` with whitespace removed at both ends.
pub open spec fn trimmed(s: Seq<char>) -> Seq<char> {
    trim_end(trim_start(s))
}

/// The number of characters before the first whitespace of `s`.
pub open spec fn word_len(s: Seq<char>) -> nat
    decreases s.len(),
{
    if s.len() == 0 || is_ws(s[0]) {
        0
    } else {
        1 + word_len(s.drop_first())
    }
}

/// The whitespace-separated words of `s`, in order.
pub open spec fn words(s: Seq<char>) -> Seq<Seq<char>>
    decreases s.len(),
{
    let t = trim_start(s);
    if t.len() == 0 {
        seq![]
    } else {
        proof {
            lemma_trim_start_len(s);
            lemma_trim_start_len(t);
        }
        seq![t.take(word_len(t) as int)] + words(t.skip(word_len(t) as int))
    }
}

/// `p` is a prefix of `s`.
pub open spec fn starts_with(s: Seq<char>, p: Seq<char>) -> bool {
    p.len() <= s.len() && s.take(p.len() as int) == p
}

/// `p` is a suffix of `s`.
pub open spec fn ends_with(s: Seq<char>, p: Seq<char>) -> bool {
    p.len() <= s.len() && s.skip(s.len() - p.len()) == p
}

/// `p` occurs in `s` as a contiguous piece.
pub open spec fn contains_seq(s: Seq<char>, p: Seq<char>) -> bool {
    exists|i: int| 0 <= i && i + p.len() <= s.len() && #[trigger] s.subrange(i, i + p.len()) == p
}

/// `s` with every trailing copy of a non-empty `p` removed.
pub open spec fn trim_end_matches(s: Seq<char>, p: Seq<char>) -> Seq<char>
    decreases s.len(),
{
    if p.len() > 0 && ends_with(s, p) {
        trim_end_matches(s.take(s.len() - p.len()), p)
    } else {
        s
    }
}

/// `i` is the first position of `c` in `s`.
pub open spec fn is_first(s: Seq<char>, c: char, i: int) -> bool {
    0 <= i < s.len() && s[i] == c && forall|j: int| 0 <= j < i ==> s[j] != c
}

/// The first position of `c` in `s`, where it occurs.
pub open spec fn first_index(s: Seq<char>, c: char) -> int {
    choose|i: int| is_first(s, c, i)
}

/// `i` is the last position of `c` in `s`.
pub open spec fn is_last(s: Seq<char>, c: char, i: int) -> bool {
    0 <= i < s.len() && s[i] == c && forall|j: int| i < j < s.len() ==> s[j] != c
}

/// The last position of `c` in `s`, where it occurs.
pub open spec fn last_index(s: Seq<char>, c: char) -> int {
    choose|i: int| is_last(s, c, i)
}

/// What `str::splitn(n, c)` yields on `s`, for `n >= 1`.
pub open spec fn splitn(s: Seq<char>, n: nat, c: char) -> Seq<Seq<char>>
    decreases n,
{
    if n <= 1 || !s.contains(c) {
        seq![s]
    } else {
        let i = first_index(s, c);
        seq![s.take(i)] + splitn(s.skip(i + 1), (n - 1) as nat, c)
    }
}

/// One line as `str::lines` yields it: without its `'\n'`, and without a
/// `'\r'` just before that `'\n'`.
pub open spec fn strip_cr(line: Seq<char>) -> Seq<char> {
    if line.len() > 0 && line.last() == '\r' {
        line.drop_last()
    } else {
        line
    }
}

/// What `str::lines` yields on `s`.
pub open spec fn lines(s: Seq<char>) -> Seq<Seq<char>>
    decreases s.len(),
{
    if s.len() == 0 {
        seq![]
    } else if s.contains('\n') {
        let i = first_index(s, '\n');
        proof {
            lemma_first_index(s, '\n');
        }
        seq![strip_cr(s.take(i))] + lines(s.skip(i + 1))
    } else {
        seq![s]
    }
}

/// The view of each string of `v`.
pub open spec fn views(v: Seq<String>) -> Seq<Seq<char>> {
    v.map_values(|x: String| x@)
}

/// Where `c` occurs in `s`, `first_index` finds its first position.
pub proof fn lemma_first_index(s: Seq<char>, c: char)
    requires
        s.contains(c),
    ensures
        is_first(s, c, first_index(s, c)),
{
    let k = choose|k: int| 0 <= k < s.len() && s[k] == c;
    lemma_first_below(s, c, k);
}

proof fn lemma_first_below(s: Seq<char>, c: char, k: int)
    requires
        0 <= k < s.len(),
        s[k] == c,
    ensures
        exists|i: int| is_first(s, c, i),
    decreases k,
{
    if exists|j: int| 0 <= j < k && s[j] == c {
        let j = choose|j: int| 0 <= j < k && s[j] == c;
        lemma_first_below(s, c, j);
    } else {
        assert(is_first(s, c, k));
    }
}

/// Where `c` occurs in `s`, `last_index` finds its last position.
pub proof fn lemma_last_index(s: Seq<char>, c: char)
    requires
        s.contains(c),
    ensures
        is_last(s, c, last_index(s, c)),
{
    let k = choose|k: int| 0 <= k < s.len() && s[k] == c;
    lemma_last_above(s, c, k);
}

proof fn lemma_last_above(s: Seq<char>, c: char, k: int)
    requires
        0 <= k < s.len(),
        s[k] == c,
    ensures
        exists|i: int| is_last(s, c, i),
    decreases s.len() - k,
{
    if exists|j: int| k < j < s.len() && s[j] == c {
        let j = choose|j: int| k < j < s.len() && s[j] == c;
        lemma_last_above(s, c, j);
    } else {
        assert(is_last(s, c, k));
    }
}

pub proof fn lemma_trim_start_len(s: Seq<char>)
    ensures
        trim_start(s).len() <= s.len(),
        trim_start(s).len() > 0 ==> !is_ws(trim_start(s)[0]),
        trim_start(s).len() > 0 ==> word_len(trim_start(s)) >= 1,
        word_len(s) <= s.len(),
    decreases s.len(),
{
    if s.len() > 0 {
        lemma_trim_start_len(s.drop_first());
    }
}

proof fn lemma_trim_start_skip(s: Seq<char>, i: int)
    requires
        0 <= i <= s.len(),
        forall|j: int| 0 <= j < i ==> is_ws(#[trigger] s[j]),
        i == s.len() || !is_ws(s[i]),
    ensures
        trim_start(s) == s.skip(i),
    decreases i,
{
    if i == 0 {
        assert(s.skip(0) =~= s);
    } else {
        let t = s.drop_first();
        assert forall|j: int| 0 <= j < i - 1 implies is_ws(#[trigger] t[j]) by {
            assert(t[j] == s[j + 1]);
        }
        lemma_trim_start_skip(t, i - 1);
        assert(t.skip(i - 1) =~= s.skip(i));
    }
}

proof fn lemma_trim_end_take(s: Seq<char>, i: int)
    requires
        0 <= i <= s.len(),
        forall|j: int| i <= j < s.len() ==> is_ws(#[trigger] s[j]),
        i == 0 || !is_ws(s[i - 1]),
    ensures
        trim_end(s) == s.take(i),
    decreases s.len() - i,
{
    if i == s.len() {
        assert(s.take(i) =~= s);
    } else {
        let t = s.drop_last();
        assert forall|j: int| i <= j < t.len() implies is_ws(#[trigger] t[j]) by {
            assert(t[j] == s[j]);
        }
        lemma_trim_end_take(t, i);
        assert(t.take(i) =~= s.take(i));
    }
}

proof fn lemma_word_len(s: Seq<char>, k: int)
    requires
        0 <= k <= s.len(),
        forall|j: int| 0 <= j < k ==> !is_ws(#[trigger] s[j]),
        k == s.len() || is_ws(s[k]),
    ensures
        word_len(s) == k,
    decreases k,
{
    if k > 0 {
        let t = s.drop_first();
        assert forall|j: int| 0 <= j < k - 1 implies !is_ws(#[trigger] t[j]) by {
            assert(t[j] == s[j + 1]);
        }
        lemma_word_len(t, k - 1);
    }
}

proof fn lemma_trim_start_idem(s: Seq<char>)
    ensures
        trim_start(trim_start(s)) == trim_start(s),
    decreases s.len(),
{
    if s.len() > 0 && is_ws(s[0]) {
        lemma_trim_start_idem(s.drop_first());
    }
}

/// Leading whitespace does not change the words.
pub proof fn lemma_words_trim_start(s: Seq<char>)
    ensures
        words(trim_start(s)) == words(s),
{
    lemma_trim_start_idem(s);
}

proof fn lemma_trim_start_push(s: Seq<char>, c: char)
    requires
        is_ws(c),
    ensures
        trim_start(s).len() > 0 ==> trim_start(s.push(c)) == trim_start(s).push(c),
        trim_start(s).len() == 0 ==> trim_start(s.push(c)).len() == 0,
    decreases s.len(),
{
    let p = s.push(c);
    if s.len() == 0 {
        assert(p.drop_first() =~= s);
    } else if is_ws(s[0]) {
        assert(p[0] == s[0]);
        assert(p.drop_first() =~= s.drop_first().push(c));
        lemma_trim_start_push(s.drop_first(), c);
    } else {
        assert(p[0] == s[0]);
    }
}

proof fn lemma_word_len_push(t: Seq<char>, c: char)
    requires
        is_ws(c),
    ensures
        word_len(t.push(c)) == word_len(t),
    decreases t.len(),
{
    let p = t.push(c);
    if t.len() > 0 {
        assert(p[0] == t[0]);
        if !is_ws(t[0]) {
            assert(p.drop_first() =~= t.drop_first().push(c));
            lemma_word_len_push(t.drop_first(), c);
        }
    }
}

/// Trailing whitespace does not change the words.
pub proof fn lemma_words_push_ws(s: Seq<char>, c: char)
    requires
        is_ws(c),
    ensures
        words(s.push(c)) == words(s),
    decreases s.len(),
{
    let t = trim_start(s);
    lemma_trim_start_push(s, c);
    lemma_trim_start_len(s);
    if t.len() > 0 {
        lemma_trim_start_len(t);
        let t2 = t.push(c);
        lemma_word_len_push(t, c);
        let w = word_len(t) as int;
        assert(t2.take(w) =~= t.take(w));
        assert(t2.skip(w) =~= t.skip(w).push(c));
        lemma_words_push_ws(t.skip(w), c);
    }
}

/// Trailing whitespace does not change the words.
pub proof fn lemma_words_trim_end(s: Seq<char>)
    ensures
        words(trim_end(s)) == words(s),
    decreases s.len(),
{
    if s.len() > 0 && is_ws(s.last()) {
        lemma_words_trim_end(s.drop_last());
        lemma_words_push_ws(s.drop_last(), s.last());
        assert(s.drop_last().push(s.last()) =~= s);
    }
}

proof fn lemma_trim_end_keeps_start(t: Seq<char>)
    requires
        t.len() > 0,
        !is_ws(t[0]),
    ensures
        trim_end(t).len() > 0,
    decreases t.len(),
{
    if is_ws(t.last()) {
        if t.len() > 1 {
            assert(t.drop_last()[0] == t[0]);
            lemma_trim_end_keeps_start(t.drop_last());
        }
    }
}

/// The trimmed text is empty exactly where there are no words, and has the
/// same words.
pub proof fn lemma_trimmed_words(s: Seq<char>)
    ensures
        words(trimmed(s)) == words(s),
        (trimmed(s).len() == 0) == (words(s).len() == 0),
{
    let ts = trim_start(s);
    lemma_words_trim_end(ts);
    lemma_words_trim_start(s);
    lemma_trim_start_len(s);
    if ts.len() > 0 {
        lemma_trim_end_keeps_start(ts);
    }
}

/// `char::is_whitespace`.
pub fn is_whitespace(c: char) -> (r: bool)
    ensures
        r == is_ws(c),
{
    ('\t' <= c && c <= '\r') || c == ' ' || c == '\u{85}' || c == '\u{a0}' || c == '\u{1680}'
        || ('\u{2000}' <= c && c <= '\u{200a}') || c == '\u{2028}' || c == '\u{2029}' || c
        == '\u{202f}' || c == '\u{205f}' || c == '\u{3000}'
}

/// The characters of `s`, in order.
pub fn chars_of(s: &str) -> (r: Vec<char>)
    ensures
        r@ == s@,
{
    let mut r: Vec<char> = Vec::new();
    for c in it: s.chars()
        invariant
            it.seq() == s@,
            r@ == it.seq().take(it.index() as int),
    {
        r.push(c);
    }
    r
}

/// The characters of `s` from position `from` up to `to`, as a `String`.
pub fn substring(s: &str, from: usize, to: usize) -> (r: String)
    requires
        from <= to <= s@.len(),
    ensures
        r@ == s@.subrange(from as int, to as int),
{
    String::from_str(s.substring_char(from, to))
}

/// `a` followed by `b`.
pub fn concat(a: &str, b: &str) -> (r: String)
    ensures
        r@ == a@ + b@,
{
    let mut r = String::from_str(a);
    r.append(b);
    r
}

/// Whether `a` and `b` hold the same characters.
pub fn str_eq(a: &str, b: &str) -> (r: bool)
    ensures
        r == (a@ == b@),
{
    let x = chars_of(a);
    let y = chars_of(b);
    if x.len() != y.len() {
        return false;
    }
    let n = x.len();
    for i in 0..n
        invariant
            n == x@.len() == y@.len(),
            x@ == a@,
            y@ == b@,
            forall|j: int| 0 <= j < i ==> x@[j] == y@[j],
    {
        if x[i] != y[i] {
            assert(x@[i as int] != y@[i as int]);
            return false;
        }
    }
    assert(x@ =~= y@);
    true
}

/// `str::starts_with` with a string pattern.
pub fn has_prefix(s: &str, p: &str) -> (r: bool)
    ensures
        r == starts_with(s@, p@),
{
    let x = chars_of(s);
    let y = chars_of(p);
    if y.len() > x.len() {
        return false;
    }
    let n = y.len();
    for i in 0..n
        invariant
            n == y@.len() <= x@.len(),
            x@ == s@,
            y@ == p@,
            forall|j: int| 0 <= j < i ==> x@[j] == y@[j],
    {
        if x[i] != y[i] {
            assert(x@.take(n as int)[i as int] != y@[i as int]);
            return false;
        }
    }
    assert(x@.take(n as int) =~= y@);
    true
}

/// `str::ends_with` with a string pattern.
pub fn has_suffix(s: &str, p: &str) -> (r: bool)
    ensures
        r == ends_with(s@, p@),
{
    let x = chars_of(s);
    let y = chars_of(p);
    if y.len() > x.len() {
        return false;
    }
    let n = y.len();
    let len = x.len();
    let off = len - n;
    for i in 0..n
        invariant
            n == y@.len() <= x@.len(),
            off + n == len,
            len == x@.len(),
            x@ == s@,
            y@ == p@,
            forall|j: int| 0 <= j < i ==> x@[off + j] == y@[j],
    {
        if x[off + i] != y[i] {
            assert(x@.skip(off as int)[i as int] != y@[i as int]);
            return false;
        }
    }
    assert(x@.skip(off as int) =~= y@);
    true
}

/// `str::strip_prefix` with a string pattern.
pub fn strip_prefix(s: &str, p: &str) -> (r: Option<String>)
    ensures
        r is Some <==> starts_with(s@, p@),
        r matches Some(t) ==> t@ == s@.skip(p@.len() as int),
{
    if has_prefix(s, p) {
        let n = s.unicode_len();
        let k = p.unicode_len();
        Some(substring(s, k, n))
    } else {
        None
    }
}

/// `str::contains` with a `char` pattern.
pub fn contains_char(s: &str, c: char) -> (r: bool)
    ensures
        r == s@.contains(c),
{
    let x = chars_of(s);
    let n = x.len();
    for i in 0..n
        invariant
            n == x@.len(),
            x@ == s@,
            forall|j: int| 0 <= j < i ==> x@[j] != c,
    {
        if x[i] == c {
            return true;
        }
    }
    false
}

/// `str::contains` with a string pattern.
pub fn contains_str(s: &str, p: &str) -> (r: bool)
    ensures
        r == contains_seq(s@, p@),
{
    let x = chars_of(s);
    let y = chars_of(p);
    if y.len() > x.len() {
        assert forall|i: int| 0 <= i && i + p@.len() <= s@.len() implies #[trigger] s@.subrange(
            i,
            i + p@.len(),
        ) != p@ by {}
        return false;
    }
    let m = y.len();
    if m == 0 {
        assert(s@.subrange(0, 0 + p@.len() as int) =~= p@);
        return true;
    }
    let len = x.len();
    let last = len - m;
    let mut i: usize = 0;
    while i <= last
        invariant
            1 <= m == y@.len() <= x@.len(),
            last + m == len,
            len == x@.len(),
            x@ == s@,
            y@ == p@,
            forall|k: int| 0 <= k < i ==> #[trigger] s@.subrange(k, k + m) != p@,
        decreases last + 1 - i,
    {
        let mut ok = true;
        let mut j: usize = 0;
        while j < m
            invariant
                m == y@.len(),
                i <= last,
                last + m == len,
                len == x@.len(),
                j <= m,
                ok <==> forall|t: int| 0 <= t < j ==> x@[i + t] == y@[t],
            decreases m - j,
        {
            if x[i + j] != y[j] {
                ok = false;
            }
            j += 1;
        }
        if ok {
            assert(s@.subrange(i as int, i + m) =~= p@);
            return true;
        }
        proof {
            let t = choose|t: int| 0 <= t < m && x@[i + t] != y@[t];
            assert(s@.subrange(i as int, i + m)[t] != p@[t]);
        }
        i += 1;
    }
    assert forall|k: int| 0 <= k && k + p@.len() <= s@.len() implies #[trigger] s@.subrange(
        k,
        k + p@.len(),
    ) != p@ by {}
    false
}

/// `str::trim`.
pub fn trim(s: &str) -> (r: String)
    ensures
        r@ == trimmed(s@),
{
    let x = chars_of(s);
    let n = x.len();
    let mut lo: usize = 0;
    while lo < n && is_whitespace(x[lo])
        invariant
            n == x@.len(),
            lo <= n,
            forall|j: int| 0 <= j < lo ==> is_ws(#[trigger] x@[j]),
        decreases n - lo,
    {
        lo += 1;
    }
    proof {
        lemma_trim_start_skip(x@, lo as int);
    }
    let mut hi: usize = n;
    while hi > lo && is_whitespace(x[hi - 1])
        invariant
            n == x@.len(),
            lo <= hi <= n,
            forall|j: int| hi <= j < n ==> is_ws(#[trigger] x@[j]),
        decreases hi,
    {
        hi -= 1;
    }
    proof {
        let t = x@.skip(lo as int);
        assert forall|j: int| hi - lo <= j < t.len() implies is_ws(#[trigger] t[j]) by {
            assert(t[j] == x@[lo + j]);
        }
        lemma_trim_end_take(t, hi - lo);
        assert(t.take(hi - lo) =~= x@.subrange(lo as int, hi as int));
    }
    substring(s, lo, hi)
}

/// `str::split_whitespace`, collected.
pub fn split_whitespace(s: &str) -> (r: Vec<String>)
    ensures
        views(r@) == words(s@),
{
    let x = chars_of(s);
    let n = x.len();
    let mut r: Vec<String> = Vec::new();
    let mut i: usize = 0;
    assert(s@.skip(0) =~= s@);
    assert(views(r@) + words(s@) =~= words(s@));
    while i < n
        invariant
            n == x@.len(),
            x@ == s@,
            i <= n,
            words(s@) == views(r@) + words(s@.skip(i as int)),
        decreases n - i,
    {
        let ghost rest = x@.skip(i as int);
        let mut j = i;
        while j < n && is_whitespace(x[j])
            invariant
                n == x@.len(),
                i <= j <= n,
                forall|t: int| i <= t < j ==> is_ws(#[trigger] x@[t]),
            decreases n - j,
        {
            j += 1;
        }
        proof {
            assert forall|t: int| 0 <= t < j - i implies is_ws(#[trigger] rest[t]) by {
                assert(rest[t] == x@[i + t]);
            }
            lemma_trim_start_skip(rest, j - i);
            assert(rest.skip(j - i) =~= x@.skip(j as int));
        }
        if j == n {
            assert(words(s@.skip(i as int)) =~= seq![]);
            assert(views(r@) + seq![] =~= views(r@));
            i = n;
            assert(x@.skip(n as int) =~= seq![]);
            assert(words(s@.skip(n as int)) =~= seq![]);
        } else {
            let mut k = j;
            while k < n && !is_whitespace(x[k])
                invariant
                    n == x@.len(),
                    j <= k <= n,
                    forall|t: int| j <= t < k ==> !is_ws(#[trigger] x@[t]),
                decreases n - k,
            {
                k += 1;
            }
            let w = substring(s, j, k);
            proof {
                let t = x@.skip(j as int);
                assert forall|q: int| 0 <= q < k - j implies !is_ws(#[trigger] t[q]) by {
                    assert(t[q] == x@[j + q]);
                }
                lemma_word_len(t, k - j);
                assert(t.take(k - j) =~= x@.subrange(j as int, k as int));
                assert(t.skip(k - j) =~= x@.skip(k as int));
                assert(words(rest) == seq![w@] + words(x@.skip(k as int)));
            }
            let ghost old_r = r@;
            r.push(w);
            proof {
                assert(views(r@) =~= views(old_r) + seq![w@]);
                assert(views(r@) + words(x@.skip(k as int)) =~= views(old_r) + (seq![w@] + words(
                    x@.skip(k as int),
                )));
            }
            i = k;
        }
    }
    assert(x@.skip(n as int) =~= seq![]);
    assert(words(s@.skip(n as int)) =~= seq![]);
    assert(views(r@) + seq![] =~= views(r@));
    r
}


/// The first position of `c` is the only one that `is_first` admits.
pub proof fn lemma_first_unique(s: Seq<char>, c: char, i: int)
    requires
        is_first(s, c, i),
    ensures
        first_index(s, c) == i,
{
    lemma_first_index(s, c);
    let k = first_index(s, c);
    if k < i {
        assert(s[k] != c);
    } else if i < k {
        assert(s[i] != c);
    }
}

/// The last position of `c` is the only one that `is_last` admits.
pub proof fn lemma_last_unique(s: Seq<char>, c: char, i: int)
    requires
        is_last(s, c, i),
    ensures
        last_index(s, c) == i,
{
    lemma_last_index(s, c);
    let k = last_index(s, c);
    if k < i {
        assert(s[i] != c);
    } else if i < k {
        assert(s[k] != c);
    }
}

/// The first position at or after `from` where `x` holds `c`.
pub fn find_from(x: &Vec<char>, from: usize, c: char) -> (r: Option<usize>)
    requires
        from <= x@.len(),
    ensures
        r matches Some(j) ==> from <= j < x@.len() && x@[j as int] == c && forall|t: int|
            from <= t < j ==> x@[t] != c,
        r is None ==> forall|t: int| from <= t < x@.len() ==> x@[t] != c,
{
    let n = x.len();
    let mut j = from;
    while j < n
        invariant
            n == x@.len(),
            from <= j <= n,
            forall|t: int| from <= t < j ==> x@[t] != c,
        decreases n - j,
    {
        if x[j] == c {
            return Some(j);
        }
        j += 1;
    }
    None
}

proof fn lemma_first_in_rest(x: Seq<char>, i: int, j: int, c: char)
    requires
        0 <= i <= j < x.len(),
        x[j] == c,
        forall|t: int| i <= t < j ==> x[t] != c,
    ensures
        x.skip(i).contains(c),
        first_index(x.skip(i), c) == j - i,
        x.skip(i).take(j - i) == x.subrange(i, j),
        x.skip(i).skip(j - i + 1) == x.skip(j + 1),
{
    let r = x.skip(i);
    assert(r[j - i] == c);
    assert forall|t: int| 0 <= t < j - i implies r[t] != c by {
        assert(r[t] == x[i + t]);
    }
    lemma_first_unique(r, c, j - i);
    assert(r.take(j - i) =~= x.subrange(i, j));
    assert(r.skip(j - i + 1) =~= x.skip(j + 1));
}

/// `str::splitn(n, c)`, collected.
pub fn split_n(s: &str, n: usize, c: char) -> (r: Vec<String>)
    requires
        n >= 1,
    ensures
        views(r@) == splitn(s@, n as nat, c),
{
    let x = chars_of(s);
    let len = x.len();
    let mut r: Vec<String> = Vec::new();
    let mut i: usize = 0;
    assert(s@.skip(0) =~= s@);
    assert(views(r@) + splitn(s@, n as nat, c) =~= splitn(s@, n as nat, c));
    loop
        invariant_except_break
            len == x@.len(),
            x@ == s@,
            i <= len,
            r@.len() < n,
            splitn(s@, n as nat, c) == views(r@) + splitn(s@.skip(i as int), (n - r@.len()) as nat, c),
        ensures
            views(r@) == splitn(s@, n as nat, c),
        decreases n - r@.len(),
    {
        let ghost old_r = r@;
        let ghost k = (n - r@.len()) as nat;
        let ghost rest = x@.skip(i as int);
        let found = if r.len() + 1 < n {
            find_from(&x, i, c)
        } else {
            None
        };
        match found {
            Some(j) => {
                proof {
                    lemma_first_in_rest(x@, i as int, j as int, c);
                }
                let w = substring(s, i, j);
                r.push(w);
                proof {
                    assert(splitn(rest, k, c) == seq![w@] + splitn(x@.skip(j + 1), (k - 1) as nat, c));
                    assert(views(r@) =~= views(old_r) + seq![w@]);
                    assert(views(r@) + splitn(x@.skip(j + 1), (k - 1) as nat, c) =~= views(old_r)
                        + (seq![w@] + splitn(x@.skip(j + 1), (k - 1) as nat, c)));
                }
                i = j + 1;
            },
            None => {
                let w = substring(s, i, len);
                proof {
                    assert(x@.subrange(i as int, len as int) =~= rest);
                    if k > 1 {
                        assert forall|t: int| 0 <= t < rest.len() implies rest[t] != c by {
                            assert(rest[t] == x@[i + t]);
                        }
                    }
                    assert(splitn(rest, k, c) == seq![rest]);
                }
                r.push(w);
                proof {
                    assert(views(r@) =~= views(old_r) + seq![w@]);
                }
                break;
            },
        }
    }
    r
}

/// `str::lines`, collected.
pub fn lines_of(s: &str) -> (r: Vec<String>)
    ensures
        views(r@) == lines(s@),
{
    let x = chars_of(s);
    let len = x.len();
    let mut r: Vec<String> = Vec::new();
    let mut i: usize = 0;
    assert(s@.skip(0) =~= s@);
    assert(views(r@) + lines(s@) =~= lines(s@));
    while i < len
        invariant
            len == x@.len(),
            x@ == s@,
            i <= len,
            lines(s@) == views(r@) + lines(s@.skip(i as int)),
        decreases len - i,
    {
        let ghost old_r = r@;
        let ghost rest = x@.skip(i as int);
        match find_from(&x, i, '\n') {
            Some(j) => {
                proof {
                    lemma_first_in_rest(x@, i as int, j as int, '\n');
                }
                let end = if j > i && x[j - 1] == '\r' {
                    j - 1
                } else {
                    j
                };
                let w = substring(s, i, end);
                proof {
                    let piece = x@.subrange(i as int, j as int);
                    assert(strip_cr(piece) =~= w@);
                    assert(lines(rest) == seq![w@] + lines(x@.skip(j + 1)));
                }
                r.push(w);
                proof {
                    assert(views(r@) =~= views(old_r) + seq![w@]);
                    assert(views(r@) + lines(x@.skip(j + 1)) =~= views(old_r) + (seq![w@] + lines(
                        x@.skip(j + 1),
                    )));
                }
                i = j + 1;
            },
            None => {
                let w = substring(s, i, len);
                proof {
                    assert(x@.subrange(i as int, len as int) =~= rest);
                    assert forall|t: int| 0 <= t < rest.len() implies rest[t] != '\n' by {
                        assert(rest[t] == x@[i + t]);
                    }
                    assert(lines(rest) == seq![rest]);
                }
                r.push(w);
                proof {
                    assert(views(r@) =~= views(old_r) + seq![w@]);
                    assert(x@.skip(len as int) =~= seq![]);
                    assert(views(r@) + lines(x@.skip(len as int)) =~= views(r@));
                }
                i = len;
            },
        }
    }
    assert(x@.skip(len as int) =~= seq![]);
    assert(views(r@) + lines(x@.skip(len as int)) =~= views(r@));
    r
}

/// `str::rsplit_once` with a `char` pattern.
pub fn rsplit_once(s: &str, c: char) -> (r: Option<(String, String)>)
    ensures
        r is Some <==> s@.contains(c),
        r matches Some((a, b)) ==> a@ == s@.take(last_index(s@, c)) && b@ == s@.skip(
            last_index(s@, c) + 1,
        ),
{
    let x = chars_of(s);
    let len = x.len();
    let mut k = len;
    while k > 0 && x[k - 1] != c
        invariant
            len == x@.len(),
            x@ == s@,
            k <= len,
            forall|t: int| k <= t < len ==> x@[t] != c,
        decreases k,
    {
        k -= 1;
    }
    if k == 0 {
        None
    } else {
        proof {
            assert(is_last(s@, c, k - 1));
            lemma_last_unique(s@, c, k - 1);
            assert(x@.subrange(0, k - 1) =~= s@.take(k - 1));
            assert(x@.subrange(k as int, len as int) =~= s@.skip(k as int));
        }
        Some((substring(s, 0, k - 1), substring(s, k, len)))
    }
}

/// Whether `x`, cut at `hi`, ends with `y`.
fn ends_at(x: &Vec<char>, hi: usize, y: &Vec<char>) -> (r: bool)
    requires
        hi <= x@.len(),
    ensures
        r == ends_with(x@.take(hi as int), y@),
{
    let m = y.len();
    if m > hi {
        return false;
    }
    let off = hi - m;
    let ghost pre = x@.take(hi as int);
    for t in 0..m
        invariant
            m == y@.len(),
            off + m == hi,
            hi <= x@.len(),
            pre == x@.take(hi as int),
            forall|q: int| 0 <= q < t ==> x@[off + q] == y@[q],
    {
        if x[off + t] != y[t] {
            assert(pre.skip(off as int)[t as int] != y@[t as int]);
            return false;
        }
    }
    assert(pre.skip(off as int) =~= y@);
    true
}

/// `str::trim_end_matches` with a string pattern.
pub fn trim_end_matching(s: &str, p: &str) -> (r: String)
    ensures
        r@ == trim_end_matches(s@, p@),
{
    let x = chars_of(s);
    let y = chars_of(p);
    let m = y.len();
    let mut hi = x.len();
    assert(x@.take(hi as int) =~= s@);
    if m > 0 {
        while ends_at(&x, hi, &y)
            invariant
                m == y@.len() > 0,
                y@ == p@,
                hi <= x@.len(),
                trim_end_matches(s@, p@) == trim_end_matches(x@.take(hi as int), p@),
            decreases hi,
        {
            assert(x@.take(hi as int).take(hi - m) =~= x@.take(hi - m));
            hi -= m;
        }
    }
    substring(s, 0, hi)
}


/// Whether `list` holds a string equal to `x`.
pub fn vec_contains(list: &Vec<String>, x: &str) -> (r: bool)
    ensures
        r == views(list@).contains(x@),
{
    let n = list.len();
    for i in 0..n
        invariant
            n == list@.len(),
            forall|j: int| 0 <= j < i ==> views(list@)[j] != x@,
    {
        if str_eq(list[i].as_str(), x) {
            assert(views(list@)[i as int] == x@);
            return true;
        }
    }
    false
}

} // verus!
