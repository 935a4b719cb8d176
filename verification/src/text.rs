//! Text as sequences of characters: the string operations that the protocol
//! modules are built from, each with a mathematical counterpart.
use vstd::prelude::*;
use vstd::slice::slice_subrange;

verus! {

// ---------------------------------------------------------------------------
// Conversions
// ---------------------------------------------------------------------------

/// `String::push` appends one character to the end of the string.
pub assume_specification[ String::push ](s: &mut String, c: char)
    ensures
        final(s)@ == old(s)@.push(c),
;

/// The characters of `s`.
pub fn chars_of(s: &str) -> (v: Vec<char>)
    ensures
        v@ == s@,
{
    let mut v: Vec<char> = Vec::new();
    for c in it: s.chars()
        invariant
            v@ == it.seq().take(it.index() as int),
            it.seq() == s@,
    {
        proof {
            assert(it.seq().take(it.index() + 1) =~= it.seq().take(it.index() as int).push(c));
        }
        v.push(c);
    }
    v
}

/// The string that consists of the characters `cs`.
pub fn string_of(cs: &[char]) -> (s: String)
    ensures
        s@ == cs@,
{
    let mut s = String::new();
    push_chars(&mut s, cs);
    assert(s@ =~= cs@);
    s
}

/// Appends the characters `cs` to `s`.
pub fn push_chars(s: &mut String, cs: &[char])
    ensures
        final(s)@ == old(s)@ + cs@,
{
    let n: usize = cs.len();
    let mut i: usize = 0;
    assert(s@ =~= old(s)@ + cs@.take(0));
    while i < n
        invariant
            n == cs@.len(),
            i <= n,
            s@ == old(s)@ + cs@.take(i as int),
        decreases n - i,
    {
        assert(cs@.take(i + 1) =~= cs@.take(i as int).push(cs@[i as int]));
        assert((old(s)@ + cs@.take(i as int)).push(cs@[i as int]) =~= old(s)@ + cs@.take(i + 1));
        s.push(cs[i]);
        i = i + 1;
    }
    assert(cs@.take(n as int) =~= cs@);
}

/// Whether `a` and `b` hold the same characters.
pub fn same_text(a: &str, b: &str) -> (r: bool)
    ensures
        r == (a@ == b@),
{
    a.to_owned() == b.to_owned()
}

/// Whether the characters `cs` are those of `lit`.
pub fn is_text(cs: &[char], lit: &str) -> (r: bool)
    ensures
        r == (cs@ == lit@),
{
    let b = chars_of(lit);
    same_chars(cs, b.as_slice())
}

/// Whether `a` and `b` are the same sequence of characters.
pub fn same_chars(a: &[char], b: &[char]) -> (r: bool)
    ensures
        r == (a@ == b@),
{
    if a.len() != b.len() {
        return false;
    }
    let n: usize = a.len();
    let mut i: usize = 0;
    while i < n
        invariant
            n == a@.len(),
            n == b@.len(),
            i <= n,
            forall|j: int| 0 <= j < i ==> a@[j] == b@[j],
        decreases n - i,
    {
        if a[i] != b[i] {
            assert(a@[i as int] != b@[i as int]);
            return false;
        }
        i = i + 1;
    }
    assert(a@ =~= b@);
    true
}

/// The characters of each element, as sequences.
pub open spec fn texts(v: Seq<&[char]>) -> Seq<Seq<char>> {
    Seq::new(v.len(), |i: int| v[i]@)
}

// ---------------------------------------------------------------------------
// Searching
// ---------------------------------------------------------------------------

/// The position of the first `c` in `s`, or the length of `s` where there is none.
pub open spec fn first_index(s: Seq<char>, c: char) -> int
    decreases s.len(),
{
    if s.len() == 0 {
        0
    } else if s[0] == c {
        0
    } else {
        1 + first_index(s.skip(1), c)
    }
}

/// `first_index` is the one position before which `c` does not occur and at
/// which it does, if at all.
pub proof fn lemma_first_index(s: Seq<char>, c: char)
    ensures
        0 <= first_index(s, c) <= s.len(),
        forall|j: int| 0 <= j < first_index(s, c) ==> s[j] != c,
        first_index(s, c) < s.len() ==> s[first_index(s, c)] == c,
        s.contains(c) <==> first_index(s, c) < s.len(),
    decreases s.len(),
{
    if s.len() > 0 && s[0] != c {
        lemma_first_index(s.skip(1), c);
        let k = first_index(s.skip(1), c);
        assert forall|j: int| 0 <= j < 1 + k implies s[j] != c by {
            if j > 0 {
                assert(s[j] == s.skip(1)[j - 1]);
            }
        }
        if k < s.skip(1).len() {
            assert(s[1 + k] == s.skip(1)[k]);
        }
    }
}

/// A position with the properties of `first_index` is `first_index`.
pub proof fn lemma_first_index_is(s: Seq<char>, c: char, k: int)
    requires
        0 <= k <= s.len(),
        forall|j: int| 0 <= j < k ==> s[j] != c,
        k < s.len() ==> s[k] == c,
    ensures
        first_index(s, c) == k,
{
    lemma_first_index(s, c);
    let m = first_index(s, c);
    if m < k {
        assert(s[m] != c);
    } else if k < m {
        assert(s[k] != c);
    }
}

/// The position of the first `c` in `cs`, or its length.
pub fn find_char(cs: &[char], c: char) -> (k: usize)
    ensures
        k == first_index(cs@, c),
        k <= cs@.len(),
        k < cs@.len() ==> cs@[k as int] == c,
{
    let n: usize = cs.len();
    let mut i: usize = 0;
    while i < n
        invariant
            n == cs@.len(),
            i <= n,
            forall|j: int| 0 <= j < i ==> cs@[j] != c,
        decreases n - i,
    {
        if cs[i] == c {
            proof {
                lemma_first_index_is(cs@, c, i as int);
            }
            return i;
        }
        i = i + 1;
    }
    proof {
        lemma_first_index_is(cs@, c, n as int);
    }
    n
}

/// The position just behind the last `c` in `s`, or 0 where there is none.
pub open spec fn after_last(s: Seq<char>, c: char) -> int
    decreases s.len(),
{
    if s.len() == 0 {
        0
    } else if s.last() == c {
        s.len() as int
    } else {
        after_last(s.drop_last(), c)
    }
}

/// The position just behind the last `c` in `cs`, or 0.
pub fn find_after_last(cs: &[char], c: char) -> (k: usize)
    ensures
        k == after_last(cs@, c),
        k <= cs@.len(),
        k > 0 ==> cs@[k - 1] == c,
{
    let mut i: usize = cs.len();
    assert(cs@.take(i as int) =~= cs@);
    while i > 0
        invariant
            i <= cs@.len(),
            after_last(cs@.take(i as int), c) == after_last(cs@, c),
        decreases i,
    {
        assert(cs@.take(i as int).last() == cs@[i - 1]);
        if cs[i - 1] == c {
            return i;
        }
        assert(cs@.take(i as int).drop_last() =~= cs@.take(i - 1));
        i = i - 1;
    }
    0
}

/// Whether `p` stands in `s` at position `i`.
pub open spec fn occurs_at(s: Seq<char>, p: Seq<char>, i: int) -> bool {
    0 <= i && i + p.len() <= s.len() && s.subrange(i, i + p.len()) == p
}

/// Whether `p` stands anywhere in `s`.
pub open spec fn contains_text(s: Seq<char>, p: Seq<char>) -> bool {
    exists|i: int| occurs_at(s, p, i)
}

/// Whether `p` stands anywhere in `cs`.
pub fn has_text(cs: &[char], p: &str) -> (r: bool)
    ensures
        r == contains_text(cs@, p@),
{
    let pat = chars_of(p);
    let m: usize = pat.len();
    let n: usize = cs.len();
    if m > n {
        assert(!contains_text(cs@, p@));
        return false;
    }
    let mut i: usize = 0;
    while i <= n - m
        invariant
            n == cs@.len(),
            m == pat@.len(),
            pat@ == p@,
            m <= n,
            i <= n - m + 1,
            forall|j: int| 0 <= j < i ==> !occurs_at(cs@, p@, j),
        decreases n - m + 1 - i,
    {
        if same_chars(slice_subrange(cs, i, i + m), pat.as_slice()) {
            assert(occurs_at(cs@, p@, i as int));
            return true;
        }
        if i == n - m {
            assert(!contains_text(cs@, p@)) by {
                assert forall|j: int| !occurs_at(cs@, p@, j) by {}
            }
            return false;
        }
        i = i + 1;
    }
    false
}

/// Whether `s` begins with `p`.
pub open spec fn begins_with(s: Seq<char>, p: Seq<char>) -> bool {
    p.len() <= s.len() && s.take(p.len() as int) == p
}

/// Whether `cs` begins with `p`.
pub fn starts_with(cs: &[char], p: &str) -> (r: bool)
    ensures
        r == begins_with(cs@, p@),
        r ==> p@.len() <= cs@.len(),
{
    let pat = chars_of(p);
    if pat.len() > cs.len() {
        return false;
    }
    let head = slice_subrange(cs, 0, pat.len());
    assert(head@ =~= cs@.take(p@.len() as int));
    same_chars(head, pat.as_slice())
}

/// What follows `p` where `s` begins with it.
pub open spec fn without_prefix(s: Seq<char>, p: Seq<char>) -> Option<Seq<char>> {
    if begins_with(s, p) {
        Some(s.skip(p.len() as int))
    } else {
        None
    }
}

/// What follows `p` where `cs` begins with it.
pub fn strip_prefix<'a>(cs: &'a [char], p: &str) -> (r: Option<&'a [char]>)
    ensures
        match r {
            Some(t) => without_prefix(cs@, p@) == Some(t@),
            None => without_prefix(cs@, p@) is None,
        },
{
    let pat = chars_of(p);
    if pat.len() > cs.len() {
        return None;
    }
    let head = slice_subrange(cs, 0, pat.len());
    assert(head@ =~= cs@.take(p@.len() as int));
    if same_chars(head, pat.as_slice()) {
        Some(slice_subrange(cs, pat.len(), cs.len()))
    } else {
        None
    }
}

// ---------------------------------------------------------------------------
// White space
// ---------------------------------------------------------------------------

/// The characters with the Unicode property `White_Space`.
pub open spec fn is_space(c: char) -> bool {
    let u = c as u32;
    ||| 0x09 <= u <= 0x0d
    ||| u == 0x20
    ||| u == 0x85
    ||| u == 0xa0
    ||| u == 0x1680
    ||| 0x2000 <= u <= 0x200a
    ||| u == 0x2028
    ||| u == 0x2029
    ||| u == 0x202f
    ||| u == 0x205f
    ||| u == 0x3000
}

pub fn is_space_char(c: char) -> (r: bool)
    ensures
        r == is_space(c),
{
    let u: u32 = c as u32;
    (0x09 <= u && u <= 0x0d) || u == 0x20 || u == 0x85 || u == 0xa0 || u == 0x1680 || (0x2000 <= u
        && u <= 0x200a) || u == 0x2028 || u == 0x2029 || u == 0x202f || u == 0x205f || u == 0x3000
}

/// `s` without its leading white space.
pub open spec fn trim_front(s: Seq<char>) -> Seq<char>
    decreases s.len(),
{
    if s.len() > 0 && is_space(s[0]) {
        trim_front(s.skip(1))
    } else {
        s
    }
}

/// `s` without its trailing white space.
pub open spec fn trim_back(s: Seq<char>) -> Seq<char>
    decreases s.len(),
{
    if s.len() > 0 && is_space(s.last()) {
        trim_back(s.drop_last())
    } else {
        s
    }
}

/// `s` without white space at either end.
pub open spec fn trimmed(s: Seq<char>) -> Seq<char> {
    trim_back(trim_front(s))
}

/// A text that neither begins nor ends with white space is left as it is.
pub proof fn lemma_trimmed_id(s: Seq<char>)
    requires
        s.len() > 0 ==> !is_space(s[0]) && !is_space(s.last()),
    ensures
        trimmed(s) == s,
{
}

proof fn lemma_trim_front(s: Seq<char>)
    ensures
        trim_front(s).len() > 0 ==> !is_space(trim_front(s)[0]),
    decreases s.len(),
{
    if s.len() > 0 && is_space(s[0]) {
        lemma_trim_front(s.skip(1));
    }
}

proof fn lemma_trim_back(s: Seq<char>)
    requires
        s.len() > 0 ==> !is_space(s[0]),
    ensures
        trim_back(s).len() > 0 ==> !is_space(trim_back(s)[0]) && !is_space(trim_back(s).last()),
    decreases s.len(),
{
    if s.len() > 0 && is_space(s.last()) {
        lemma_trim_back(s.drop_last());
    }
}

/// A text that has lost the white space at its ends has none to lose.
pub proof fn lemma_trimmed_twice(s: Seq<char>)
    ensures
        trimmed(trimmed(s)) == trimmed(s),
{
    lemma_trim_front(s);
    lemma_trim_back(trim_front(s));
    lemma_trimmed_id(trimmed(s));
}

/// A text that is trimmed does not end in white space.
pub proof fn lemma_trimmed_ends(s: Seq<char>)
    requires
        trimmed(s) == s,
        s.len() > 0,
    ensures
        !is_space(s.last()),
{
    lemma_trim_front(s);
    lemma_trim_back(trim_front(s));
}

/// What is left of a text without the white space at its ends was in it.
pub proof fn lemma_trimmed_within(s: Seq<char>, c: char)
    ensures
        trimmed(s).contains(c) ==> s.contains(c),
{
    if trimmed(s).contains(c) {
        lemma_trim_back_within(trim_front(s), c);
        lemma_trim_front_within(s, c);
    }
}

proof fn lemma_trim_front_within(s: Seq<char>, c: char)
    requires
        trim_front(s).contains(c),
    ensures
        s.contains(c),
    decreases s.len(),
{
    if s.len() > 0 && is_space(s[0]) {
        lemma_trim_front_within(s.skip(1), c);
        let i = choose|i: int| 0 <= i < s.skip(1).len() && s.skip(1)[i] == c;
        assert(s[i + 1] == c);
    }
}

proof fn lemma_trim_back_within(s: Seq<char>, c: char)
    requires
        trim_back(s).contains(c),
    ensures
        s.contains(c),
    decreases s.len(),
{
    if s.len() > 0 && is_space(s.last()) {
        lemma_trim_back_within(s.drop_last(), c);
        let i = choose|i: int| 0 <= i < s.drop_last().len() && s.drop_last()[i] == c;
        assert(s[i] == c);
    }
}

/// `cs` without leading white space.
pub fn trim_start(cs: &[char]) -> (r: &[char])
    ensures
        r@ == trim_front(cs@),
{
    let n: usize = cs.len();
    let mut i: usize = 0;
    assert(cs@.skip(0) =~= cs@);
    while i < n && is_space_char(cs[i])
        invariant
            n == cs@.len(),
            i <= n,
            trim_front(cs@.skip(i as int)) == trim_front(cs@),
        decreases n - i,
    {
        assert(cs@.skip(i as int).skip(1) =~= cs@.skip(i + 1));
        i = i + 1;
    }
    let r = slice_subrange(cs, i, n);
    assert(r@ =~= cs@.skip(i as int));
    r
}

/// `cs` without white space at either end.
pub fn trim(cs: &[char]) -> (r: &[char])
    ensures
        r@ == trimmed(cs@),
{
    let t = trim_start(cs);
    let mut n: usize = t.len();
    assert(t@.take(n as int) =~= t@);
    while n > 0 && is_space_char(t[n - 1])
        invariant
            n <= t@.len(),
            trim_back(t@.take(n as int)) == trim_back(t@),
        decreases n,
    {
        assert(t@.take(n as int).drop_last() =~= t@.take(n - 1));
        n = n - 1;
    }
    let r = slice_subrange(t, 0, n);
    assert(r@ =~= t@.take(n as int));
    r
}

/// `s` without the characters `c` at its front.
pub open spec fn strip_front(s: Seq<char>, c: char) -> Seq<char>
    decreases s.len(),
{
    if s.len() > 0 && s[0] == c {
        strip_front(s.skip(1), c)
    } else {
        s
    }
}

/// `s` without the characters `c` at its back.
pub open spec fn strip_back(s: Seq<char>, c: char) -> Seq<char>
    decreases s.len(),
{
    if s.len() > 0 && s.last() == c {
        strip_back(s.drop_last(), c)
    } else {
        s
    }
}

/// `s` without the characters `c` at either end.
pub open spec fn stripped(s: Seq<char>, c: char) -> Seq<char> {
    strip_back(strip_front(s, c), c)
}

/// `cs` without the characters `c` at either end.
pub fn trim_matches(cs: &[char], c: char) -> (r: &[char])
    ensures
        r@ == stripped(cs@, c),
{
    let n: usize = cs.len();
    let mut i: usize = 0;
    assert(cs@.skip(0) =~= cs@);
    while i < n && cs[i] == c
        invariant
            n == cs@.len(),
            i <= n,
            strip_front(cs@.skip(i as int), c) == strip_front(cs@, c),
        decreases n - i,
    {
        assert(cs@.skip(i as int).skip(1) =~= cs@.skip(i + 1));
        i = i + 1;
    }
    let ghost t = cs@.skip(i as int);
    let mut m: usize = n;
    assert(t.take(m - i) =~= t);
    while m > i && cs[m - 1] == c
        invariant
            n == cs@.len(),
            i <= m <= n,
            t == cs@.skip(i as int),
            strip_back(t.take(m - i), c) == strip_back(t, c),
        decreases m,
    {
        assert(t.take(m - i).last() == cs@[m - 1]);
        assert(t.take(m - i).drop_last() =~= t.take(m - 1 - i));
        m = m - 1;
    }
    let r = slice_subrange(cs, i, m);
    assert(r@ =~= t.take(m - i));
    if m > i {
        assert(t.take(m - i).last() == cs@[m - 1]);
    }
    r
}

// ---------------------------------------------------------------------------
// Splitting
// ---------------------------------------------------------------------------

/// What stands before the first `c`, and what stands behind it.
pub open spec fn cut(s: Seq<char>, c: char) -> Option<(Seq<char>, Seq<char>)> {
    let k = first_index(s, c);
    if k < s.len() {
        Some((s.take(k), s.skip(k + 1)))
    } else {
        None
    }
}

/// What stands before the first `c`, and what stands behind it.
pub fn split_once<'a>(cs: &'a [char], c: char) -> (r: Option<(&'a [char], &'a [char])>)
    ensures
        match r {
            Some((a, b)) => cut(cs@, c) == Some((a@, b@)),
            None => cut(cs@, c) is None,
        },
{
    let k: usize = find_char(cs, c);
    if k < cs.len() {
        let a = slice_subrange(cs, 0, k);
        let b = slice_subrange(cs, k + 1, cs.len());
        assert(a@ =~= cs@.take(k as int));
        assert(b@ =~= cs@.skip(k + 1));
        Some((a, b))
    } else {
        None
    }
}

/// The pieces of `s` between the occurrences of `c`.
pub open spec fn split(s: Seq<char>, c: char) -> Seq<Seq<char>>
    decreases s.len(),
{
    let k = first_index(s, c);
    if 0 <= k < s.len() {
        seq![s.take(k)] + split(s.skip(k + 1), c)
    } else {
        seq![s]
    }
}

/// The pieces of `cs` between the occurrences of `c`.
pub fn split_on<'a>(cs: &'a [char], c: char) -> (r: Vec<&'a [char]>)
    ensures
        texts(r@) == split(cs@, c),
        r@.len() > 0,
{
    let mut out: Vec<&'a [char]> = Vec::new();
    let mut rest = cs;
    assert(texts(out@) + split(rest@, c) =~= split(cs@, c));
    loop
        invariant
            texts(out@) + split(rest@, c) == split(cs@, c),
        decreases rest@.len(),
    {
        let k: usize = find_char(rest, c);
        let ghost before = texts(out@);
        if k < rest.len() {
            let a = slice_subrange(rest, 0, k);
            let b = slice_subrange(rest, k + 1, rest.len());
            assert(a@ =~= rest@.take(k as int));
            assert(b@ =~= rest@.skip(k + 1));
            out.push(a);
            assert(texts(out@) =~= before.push(a@));
            assert(texts(out@) + split(b@, c) =~= before + (seq![a@] + split(b@, c)));
            rest = b;
        } else {
            out.push(rest);
            assert(texts(out@) =~= before + seq![rest@]);
            return out;
        }
    }
}

/// At most `n` pieces of `s`: the first `n - 1` end before a `c`, the last one
/// is the remainder.
pub open spec fn splitn(s: Seq<char>, n: nat, c: char) -> Seq<Seq<char>>
    decreases n,
{
    if n == 0 {
        seq![]
    } else if n == 1 {
        seq![s]
    } else {
        let k = first_index(s, c);
        if k < s.len() {
            seq![s.take(k)] + splitn(s.skip(k + 1), (n - 1) as nat, c)
        } else {
            seq![s]
        }
    }
}

/// At most `n` pieces of `cs`, as `splitn` says.
pub fn splitn_on<'a>(cs: &'a [char], n: usize, c: char) -> (r: Vec<&'a [char]>)
    ensures
        texts(r@) == splitn(cs@, n as nat, c),
{
    let mut out: Vec<&'a [char]> = Vec::new();
    if n == 0 {
        assert(texts(out@) =~= seq![]);
        return out;
    }
    let mut rest = cs;
    let mut left: usize = n;
    assert(texts(out@) + splitn(rest@, n as nat, c) =~= splitn(cs@, n as nat, c));
    while left > 1
        invariant
            1 <= left <= n,
            texts(out@) + splitn(rest@, left as nat, c) == splitn(cs@, n as nat, c),
        decreases left,
    {
        let k: usize = find_char(rest, c);
        let ghost before = texts(out@);
        if k < rest.len() {
            let a = slice_subrange(rest, 0, k);
            let b = slice_subrange(rest, k + 1, rest.len());
            assert(a@ =~= rest@.take(k as int));
            assert(b@ =~= rest@.skip(k + 1));
            out.push(a);
            assert(texts(out@) =~= before.push(a@));
            assert(texts(out@) + splitn(b@, (left - 1) as nat, c) =~= before + (seq![a@] + splitn(
                b@,
                (left - 1) as nat,
                c,
            )));
            rest = b;
            left = left - 1;
        } else {
            out.push(rest);
            assert(texts(out@) =~= before + seq![rest@]);
            return out;
        }
    }
    let ghost before = texts(out@);
    out.push(rest);
    assert(texts(out@) =~= before + seq![rest@]);
    out
}

/// A line without the carriage return before its line feed.
pub open spec fn without_cr(s: Seq<char>) -> Seq<char> {
    if s.len() > 0 && s.last() == '\r' {
        s.drop_last()
    } else {
        s
    }
}

/// The lines of `s`: each ends at a line feed, which is not part of it, nor is
/// a carriage return just before it; the last line feed is optional.
pub open spec fn lines(s: Seq<char>) -> Seq<Seq<char>>
    decreases s.len(),
{
    if s.len() == 0 {
        seq![]
    } else {
        let k = first_index(s, '\n');
        if 0 <= k < s.len() {
            seq![without_cr(s.take(k))] + lines(s.skip(k + 1))
        } else {
            seq![s]
        }
    }
}

/// A text without line feeds, with one behind it, is the first line.
pub proof fn lemma_newline_cons(l: Seq<char>, rest: Seq<char>)
    requires
        !l.contains('\n'),
        l.len() > 0 ==> l.last() != '\r',
    ensures
        lines(l + "\n"@ + rest) == seq![l] + lines(rest),
{
    reveal_strlit("\n");
    let s = l + "\n"@ + rest;
    let k: int = l.len() as int;
    assert forall|j: int| 0 <= j < k implies s[j] != '\n' by {
        assert(s[j] == l[j]);
        assert(l.contains(l[j]));
    }
    assert(s[k] == '\n');
    lemma_first_index_is(s, '\n', k);
    assert(s.take(k) =~= l);
    assert(without_cr(l) == l);
    assert(s.skip(k + 1) =~= rest);
}

/// The lines of `cs`.
pub fn lines_of<'a>(cs: &'a [char]) -> (r: Vec<&'a [char]>)
    ensures
        texts(r@) == lines(cs@),
{
    let mut out: Vec<&'a [char]> = Vec::new();
    let mut rest = cs;
    assert(texts(out@) + lines(rest@) =~= lines(cs@));
    while rest.len() > 0
        invariant
            texts(out@) + lines(rest@) == lines(cs@),
        decreases rest@.len(),
    {
        let k: usize = find_char(rest, '\n');
        let ghost before = texts(out@);
        if k < rest.len() {
            let m: usize = if k > 0 && rest[k - 1] == '\r' {
                k - 1
            } else {
                k
            };
            let a = slice_subrange(rest, 0, m);
            let b = slice_subrange(rest, k + 1, rest.len());
            assert(a@ =~= without_cr(rest@.take(k as int)));
            assert(b@ =~= rest@.skip(k + 1));
            out.push(a);
            assert(texts(out@) =~= before.push(a@));
            assert(texts(out@) + lines(b@) =~= before + (seq![a@] + lines(b@)));
            rest = b;
        } else {
            out.push(rest);
            assert(texts(out@) =~= before + seq![rest@]);
            return out;
        }
    }
    assert(texts(out@) =~= lines(cs@));
    out
}

/// The length of the run of characters before the first white space.
pub open spec fn word_len(s: Seq<char>) -> nat
    decreases s.len(),
{
    if s.len() == 0 || is_space(s[0]) {
        0
    } else {
        1 + word_len(s.skip(1))
    }
}

/// The longest runs of characters without white space.
pub open spec fn words(s: Seq<char>) -> Seq<Seq<char>>
    decreases s.len(),
{
    if s.len() == 0 {
        seq![]
    } else if is_space(s[0]) {
        words(s.skip(1))
    } else {
        let k = word_len(s);
        if 0 < k <= s.len() {
            seq![s.take(k as int)] + words(s.skip(k as int))
        } else {
            seq![]
        }
    }
}

/// The longest runs of characters without white space.
pub fn words_of<'a>(cs: &'a [char]) -> (r: Vec<&'a [char]>)
    ensures
        texts(r@) == words(cs@),
{
    let mut out: Vec<&'a [char]> = Vec::new();
    let mut rest = cs;
    assert(texts(out@) + words(rest@) =~= words(cs@));
    while rest.len() > 0
        invariant
            texts(out@) + words(rest@) == words(cs@),
        decreases rest@.len(),
    {
        let n: usize = rest.len();
        if is_space_char(rest[0]) {
            let b = slice_subrange(rest, 1, n);
            assert(b@ =~= rest@.skip(1));
            rest = b;
        } else {
            let mut k: usize = 1;
            assert(rest@.skip(0) =~= rest@);
            assert(word_len(rest@) == 1 + word_len(rest@.skip(1)));
            while k < n && !is_space_char(rest[k])
                invariant
                    n == rest@.len(),
                    1 <= k <= n,
                    word_len(rest@) == k + word_len(rest@.skip(k as int)),
                decreases n - k,
            {
                assert(rest@.skip(k as int).skip(1) =~= rest@.skip(k + 1));
                k = k + 1;
            }
            assert(word_len(rest@) == k);
            let ghost before = texts(out@);
            let a = slice_subrange(rest, 0, k);
            let b = slice_subrange(rest, k, n);
            assert(a@ =~= rest@.take(k as int));
            assert(b@ =~= rest@.skip(k as int));
            out.push(a);
            assert(texts(out@) =~= before.push(a@));
            assert(texts(out@) + words(b@) =~= before + (seq![a@] + words(b@)));
            rest = b;
        }
    }
    assert(texts(out@) =~= words(cs@));
    out
}

/// The parts, with `sep` between each two.
pub open spec fn join(parts: Seq<Seq<char>>, sep: Seq<char>) -> Seq<char>
    decreases parts.len(),
{
    if parts.len() == 0 {
        seq![]
    } else if parts.len() == 1 {
        parts[0]
    } else {
        join(parts.drop_last(), sep) + sep + parts.last()
    }
}

/// The parts, with `sep` between each two.
pub fn join_texts(parts: &[&[char]], sep: &str) -> (r: String)
    ensures
        r@ == join(texts(parts@), sep@),
{
    let n: usize = parts.len();
    if n == 0 {
        let r = String::new();
        assert(r@ =~= join(texts(parts@), sep@));
        return r;
    }
    let mut r = string_of(parts[0]);
    let mut i: usize = 1;
    let ghost all = texts(parts@);
    assert(all.take(1)[0] == all[0]);
    while i < n
        invariant
            n == parts@.len(),
            all == texts(parts@),
            1 <= i <= n,
            r@ == join(all.take(i as int), sep@),
        decreases n - i,
    {
        assert(all.take(i + 1).drop_last() =~= all.take(i as int));
        assert(all.take(i + 1).last() == all[i as int]);
        r.append(sep);
        push_chars(&mut r, parts[i]);
        i = i + 1;
    }
    assert(all.take(n as int) =~= all);
    r
}

// ---------------------------------------------------------------------------
// Laws
// ---------------------------------------------------------------------------

/// Where a character stands first, behind a text without it.
proof fn lemma_first_behind(a: Seq<char>, c: char, b: Seq<char>)
    requires
        !a.contains(c),
    ensures
        first_index(a + seq![c] + b, c) == a.len(),
        first_index(a, c) == a.len(),
        (a + seq![c] + b).take(a.len() as int) == a,
        (a + seq![c] + b).skip(a.len() as int + 1) == b,
{
    let s = a + seq![c] + b;
    assert forall|j: int| 0 <= j < a.len() implies s[j] != c && a[j] != c by {
        assert(s[j] == a[j]);
        assert(a.contains(a[j]));
    }
    lemma_first_index_is(s, c, a.len() as int);
    lemma_first_index_is(a, c, a.len() as int);
    assert(s.take(a.len() as int) =~= a);
    assert(s.skip(a.len() as int + 1) =~= b);
}

/// A text is cut and split where the separator first stands: what is before it
/// comes first, and the rest is what is behind it. A text without the separator
/// stays whole.
pub proof fn law_separated(a: Seq<char>, c: char, b: Seq<char>, n: nat)
    requires
        !a.contains(c),
        n >= 2,
    ensures
        cut(a + seq![c] + b, c) == Some((a, b)),
        cut(a, c) is None,
        split(a + seq![c] + b, c) == seq![a] + split(b, c),
        split(a, c) == seq![a],
        splitn(a + seq![c] + b, n, c) == seq![a] + splitn(b, (n - 1) as nat, c),
        splitn(a, n, c) == seq![a],
        splitn(b, 1, c) == seq![b],
{
    lemma_first_behind(a, c, b);
}

/// Lines end at a line feed, with or without a carriage return before it; what
/// stands behind the last line feed is a line where there is anything.
pub proof fn law_lines(l: Seq<char>, rest: Seq<char>)
    requires
        !l.contains('\n'),
        l.len() > 0 ==> l.last() != '\r',
    ensures
        lines(l + seq!['\n'] + rest) == seq![l] + lines(rest),
        lines(l + seq!['\r', '\n'] + rest) == seq![l] + lines(rest),
        lines(l) == (if l.len() == 0 {
            seq![]
        } else {
            seq![l]
        }),
{
    lemma_first_behind(l, '\n', rest);
    let r = l.push('\r');
    assert(!r.contains('\n')) by {
        assert forall|j: int| 0 <= j < r.len() implies r[j] != '\n' by {
            if j < l.len() {
                assert(l.contains(l[j]));
                assert(r[j] == l[j]);
            }
        }
    }
    lemma_first_behind(r, '\n', rest);
    assert(l + seq!['\r', '\n'] + rest =~= r + seq!['\n'] + rest);
    assert(r.drop_last() =~= l);
}

/// Blanks, tabs and line ends at both ends of a text are trimmed away, and nothing
/// else is.
pub proof fn law_trimmed(front: Seq<char>, s: Seq<char>, back: Seq<char>)
    requires
        forall|i: int|
            0 <= i < front.len() ==> ((#[trigger] front[i]) == ' ' || front[i] == '\t' || front[i]
                == '\r' || front[i] == '\n'),
        forall|i: int|
            0 <= i < back.len() ==> ((#[trigger] back[i]) == ' ' || back[i] == '\t' || back[i]
                == '\r' || back[i] == '\n'),
        s.len() > 0 ==> '!' <= s[0] <= '~' && '!' <= s.last() <= '~',
    ensures
        trimmed(front + s + back) == s,
    decreases front.len() + back.len(),
{
    let all = front + s + back;
    if front.len() > 0 {
        assert(all[0] == front[0]);
        assert(all.skip(1) =~= front.skip(1) + s + back);
        assert forall|i: int| 0 <= i < front.skip(1).len() implies ((
        #[trigger] front.skip(1)[i]) == ' ' || front.skip(1)[i] == '\t' || front.skip(1)[i]
            == '\r' || front.skip(1)[i] == '\n') by {
            assert(front.skip(1)[i] == front[i + 1]);
        }
        law_trimmed(front.skip(1), s, back);
    } else if s.len() > 0 {
        assert(all[0] == s[0]);
        lemma_trim_back_of(s, back);
        assert(all =~= s + back);
    } else if back.len() > 0 {
        assert(all =~= back);
        let rest = back.skip(1);
        assert forall|i: int| 0 <= i < rest.len() implies ((#[trigger] rest[i]) == ' ' || rest[i]
            == '\t' || rest[i] == '\r' || rest[i] == '\n') by {
            assert(rest[i] == back[i + 1]);
        }
        law_trimmed(seq![], s, rest);
        assert(seq![] + s + rest =~= rest);
        assert(all.skip(1) =~= rest);
    } else {
        assert(all =~= s);
    }
}

proof fn lemma_trim_back_of(s: Seq<char>, back: Seq<char>)
    requires
        s.len() > 0,
        !is_space(s.last()),
        forall|i: int| 0 <= i < back.len() ==> is_space(#[trigger] back[i]),
    ensures
        trim_back(s + back) == s,
    decreases back.len(),
{
    let all = s + back;
    if back.len() > 0 {
        assert(all.last() == back[back.len() - 1]);
        let init = back.drop_last();
        assert(all.drop_last() =~= s + init);
        assert forall|i: int| 0 <= i < init.len() implies is_space(#[trigger] init[i]) by {
            assert(init[i] == back[i]);
        }
        lemma_trim_back_of(s, init);
    } else {
        assert(all =~= s);
    }
}

/// White space is what Unicode says it is: the blank, the controls from tab to
/// carriage return, the next line, and the blanks and separators of other scripts.
pub proof fn law_white_space(c: char)
    ensures
        trimmed(seq![c]).len() == 0 <==> c == ' ' || '\t' <= c <= '\r' || c == '\u{85}' || c
            == '\u{a0}' || c == '\u{1680}' || '\u{2000}' <= c <= '\u{200a}' || c == '\u{2028}' || c
            == '\u{2029}' || c == '\u{202f}' || c == '\u{205f}' || c == '\u{3000}',
        trimmed(seq![c]).len() == 0 ==> words(seq![c]).len() == 0,
{
    let s = seq![c];
    assert(s.skip(1).len() == 0);
    assert(trim_front(s.skip(1)).len() == 0);
    assert(words(s.skip(1)).len() == 0);
    if !is_space(c) {
        assert(trim_back(s) == s);
    }
}

/// A text stands in another where some part of the other is that text.
pub proof fn law_contains_text(a: Seq<char>, p: Seq<char>, b: Seq<char>, s: Seq<char>)
    ensures
        contains_text(a + p + b, p),
        contains_text(s, p) <==> exists|i: int|
            0 <= i <= s.len() - p.len() && #[trigger] s.subrange(i, i + p.len()) == p,
{
    let all = a + p + b;
    let k = a.len() as int;
    assert(all.subrange(k, k + p.len()) =~= p);
    assert(occurs_at(all, p, k));
    if contains_text(s, p) {
        let i = choose|i: int| occurs_at(s, p, i);
        assert(s.subrange(i, i + p.len()) == p);
    }
    if exists|i: int|
        0 <= i <= s.len() - p.len() && #[trigger] s.subrange(i, i + p.len()) == p {
        let i = choose|i: int|
            0 <= i <= s.len() - p.len() && #[trigger] s.subrange(i, i + p.len()) == p;
        assert(occurs_at(s, p, i));
    }
}

/// A prefix is taken off a text that begins with it, and off no other.
pub proof fn law_prefix(p: Seq<char>, s: Seq<char>, t: Seq<char>)
    ensures
        without_prefix(p + s, p) == Some(s),
        without_prefix(t, p) matches Some(r) ==> t == p + r,
{
    assert((p + s).take(p.len() as int) =~= p);
    assert((p + s).skip(p.len() as int) =~= s);
    if begins_with(t, p) {
        assert(t =~= p + t.skip(p.len() as int));
    }
}

/// Words are what stands between blanks.
pub proof fn law_words(w: Seq<char>, rest: Seq<char>)
    requires
        w.len() > 0,
        forall|i: int| 0 <= i < w.len() ==> '!' <= #[trigger] w[i] <= '~',
    ensures
        words(w + seq![' '] + rest) == seq![w] + words(rest),
        words(w) == seq![w],
        words(seq![' '] + rest) == words(rest),
{
    let s = w + seq![' '] + rest;
    lemma_word_of(w, seq![' '] + rest);
    lemma_word_of(w, seq![]);
    assert(w + seq![] =~= w);
    assert(w[0] == s[0]);
    assert(!is_space(w[0]));
    assert(is_space((seq![' '] + rest)[0]));
    assert(s =~= w + (seq![' '] + rest));
    assert(s.take(w.len() as int) =~= w);
    assert(w.take(w.len() as int) =~= w);
    assert((seq![' '] + rest).skip(1) =~= rest);
    assert(s.skip(w.len() as int) =~= seq![' '] + rest);
    assert(w.skip(w.len() as int) =~= seq![]);
    assert(words(Seq::<char>::empty()) =~= seq![]);
    assert(words(seq![' '] + rest) == words(rest));
    assert(words(w) =~= seq![w]);
}

proof fn lemma_word_of(w: Seq<char>, rest: Seq<char>)
    requires
        forall|i: int| 0 <= i < w.len() ==> '!' <= #[trigger] w[i] <= '~',
        rest.len() > 0 ==> rest[0] == ' ',
    ensures
        word_len(w + rest) == w.len(),
    decreases w.len(),
{
    let s = w + rest;
    if w.len() > 0 {
        assert(s[0] == w[0]);
        assert(s.skip(1) =~= w.skip(1) + rest);
        assert forall|i: int| 0 <= i < w.skip(1).len() implies '!' <= #[trigger] w.skip(1)[i]
            <= '~' by {
            assert(w.skip(1)[i] == w[i + 1]);
        }
        lemma_word_of(w.skip(1), rest);
    } else {
        assert(s =~= rest);
    }
}

/// Parts are joined with the separator between each two of them.
pub proof fn law_joined(parts: Seq<Seq<char>>, last: Seq<char>, sep: Seq<char>)
    ensures
        join(seq![last], sep) == last,
        parts.len() > 0 ==> join(parts.push(last), sep) == join(parts, sep) + sep + last,
{
    assert(parts.push(last).drop_last() =~= parts);
}

} // verus!
