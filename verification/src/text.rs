//! Text primitives shared by the rest of the library: character classes,
//! trimming, line and word splitting, substring search and decimal rendering.
//!
//! Each operation is stated over `Seq<char>` by a spec function that follows
//! the behaviour std documents for the corresponding `str` method, and is
//! implemented on a `Vec<char>` (with index spans into it) or a `String`.

use vstd::prelude::*;
use vstd::string::*;
use vstd::utf8::*;

verus! {

// ---------------------------------------------------------------------------
// Character classes
// ---------------------------------------------------------------------------

/// The Unicode `White_Space` property, which is what `char::is_whitespace`
/// and therefore `str::trim`, `str::split_whitespace` test.
pub open spec fn is_white_space(c: char) -> bool {
    let u = c as u32;
    ||| 0x9 <= u <= 0xd
    ||| u == 0x20
    ||| u == 0x85
    ||| u == 0xa0
    ||| u == 0x1680
    ||| 0x2000 <= u <= 0x200a
    ||| u == 0x2028
    ||| u == 0x2029
    ||| u == 0x202f
    ||| u == 0x205f
    ||| u == 0x3000
}

/// `char::is_ascii_graphic`: U+0021 '!' ..= U+007E '~'.
pub open spec fn is_ascii_graphic(c: char) -> bool {
    0x21 <= (c as u32) <= 0x7e
}

/// `char::is_ascii_alphanumeric`: '0'..='9', 'A'..='Z', 'a'..='z'.
pub open spec fn is_ascii_alphanumeric(c: char) -> bool {
    let u = c as u32;
    ||| 0x30 <= u <= 0x39
    ||| 0x41 <= u <= 0x5a
    ||| 0x61 <= u <= 0x7a
}

pub fn white_space(c: char) -> (b: bool)
    ensures
        b == is_white_space(c),
{
    let u = c as u32;
    (0x9 <= u && u <= 0xd) || u == 0x20 || u == 0x85 || u == 0xa0 || u == 0x1680 || (0x2000 <= u
        && u <= 0x200a) || u == 0x2028 || u == 0x2029 || u == 0x202f || u == 0x205f || u == 0x3000
}

/// The characters removed from the ends of a piece of text by a trim.
#[derive(Clone, Copy, PartialEq, Eq, Debug)]
pub enum Edge {
    /// `str::trim`: Unicode white space.
    WhiteSpace,
    /// Everything that is not a printable ASCII character.
    NonGraphic,
    /// Everything but ASCII letters, digits, '.' and ':'.
    NonAddress,
}

pub open spec fn strips(e: Edge, c: char) -> bool {
    match e {
        Edge::WhiteSpace => is_white_space(c),
        Edge::NonGraphic => !is_ascii_graphic(c),
        Edge::NonAddress => !(is_ascii_alphanumeric(c) || c == '.' || c == ':'),
    }
}

pub fn strips_char(e: Edge, c: char) -> (b: bool)
    ensures
        b == strips(e, c),
{
    let u = c as u32;
    match e {
        Edge::WhiteSpace => white_space(c),
        Edge::NonGraphic => !(0x21 <= u && u <= 0x7e),
        Edge::NonAddress => !((0x30 <= u && u <= 0x39) || (0x41 <= u && u <= 0x5a) || (0x61 <= u
            && u <= 0x7a) || c == '.' || c == ':'),
    }
}

// ---------------------------------------------------------------------------
// Trimming (`str::trim`, `str::trim_matches`)
// ---------------------------------------------------------------------------

pub open spec fn trim_start_by(s: Seq<char>, e: Edge) -> Seq<char>
    decreases s.len(),
{
    if s.len() > 0 && strips(e, s[0]) {
        trim_start_by(s.drop_first(), e)
    } else {
        s
    }
}

pub open spec fn trim_end_by(s: Seq<char>, e: Edge) -> Seq<char>
    decreases s.len(),
{
    if s.len() > 0 && strips(e, s.last()) {
        trim_end_by(s.drop_last(), e)
    } else {
        s
    }
}

/// `s` without the leading and trailing characters that `e` strips.
pub open spec fn trim_by(s: Seq<char>, e: Edge) -> Seq<char> {
    trim_end_by(trim_start_by(s, e), e)
}

/// `str::trim`.
pub open spec fn trim(s: Seq<char>) -> Seq<char> {
    trim_by(s, Edge::WhiteSpace)
}

/// Narrows the span `lo..hi` of `v` to its trimmed part.
pub fn trim_span(v: &Vec<char>, lo: usize, hi: usize, e: Edge) -> (r: (usize, usize))
    requires
        lo <= hi <= v@.len(),
    ensures
        lo <= r.0 <= r.1 <= hi,
        v@.subrange(r.0 as int, r.1 as int) == trim_by(v@.subrange(lo as int, hi as int), e),
{
    let mut a = lo;
    while a < hi && strips_char(e, v[a])
        invariant
            lo <= a <= hi <= v@.len(),
            trim_start_by(v@.subrange(lo as int, hi as int), e) == trim_start_by(
                v@.subrange(a as int, hi as int),
                e,
            ),
        decreases hi - a,
    {
        assert(v@.subrange(a as int, hi as int).drop_first() =~= v@.subrange(
            a + 1,
            hi as int,
        ));
        a = a + 1;
    }
    assert(trim_start_by(v@.subrange(a as int, hi as int), e) == v@.subrange(a as int, hi as int));
    let mut b = hi;
    while b > a && strips_char(e, v[b - 1])
        invariant
            lo <= a <= b <= hi <= v@.len(),
            trim_by(v@.subrange(lo as int, hi as int), e) == trim_end_by(
                v@.subrange(a as int, b as int),
                e,
            ),
        decreases b - a,
    {
        assert(v@.subrange(a as int, b as int).drop_last() =~= v@.subrange(
            a as int,
            b - 1,
        ));
        b = b - 1;
    }
    (a, b)
}

// ---------------------------------------------------------------------------
// Lines (`str::lines`) and words (`str::split_whitespace`)
// ---------------------------------------------------------------------------

/// A line that ended in "\n" loses one "\r" before it.
pub open spec fn strip_cr(l: Seq<char>) -> Seq<char> {
    if l.len() > 0 && l.last() == '\r' {
        l.drop_last()
    } else {
        l
    }
}

/// The lines of `s`, where `cur` is the part of a line read before `s`.
pub open spec fn lines_from(s: Seq<char>, cur: Seq<char>) -> Seq<Seq<char>>
    decreases s.len(),
{
    if s.len() == 0 {
        if cur.len() == 0 {
            seq![]
        } else {
            seq![cur]
        }
    } else if s[0] == '\n' {
        seq![strip_cr(cur)] + lines_from(s.drop_first(), seq![])
    } else {
        lines_from(s.drop_first(), cur.push(s[0]))
    }
}

/// `str::lines`: split at "\n" (a "\r" just before it goes too); a final
/// "\n" does not open an empty last line.
pub open spec fn lines(s: Seq<char>) -> Seq<Seq<char>> {
    lines_from(s, seq![])
}

/// The words of `s`, where `cur` is the part of a word read before `s`.
pub open spec fn words_from(s: Seq<char>, cur: Seq<char>) -> Seq<Seq<char>>
    decreases s.len(),
{
    if s.len() == 0 {
        if cur.len() == 0 {
            seq![]
        } else {
            seq![cur]
        }
    } else if is_white_space(s[0]) {
        if cur.len() == 0 {
            words_from(s.drop_first(), seq![])
        } else {
            seq![cur] + words_from(s.drop_first(), seq![])
        }
    } else {
        words_from(s.drop_first(), cur.push(s[0]))
    }
}

/// `str::split_whitespace`: the maximal runs of characters that are not
/// white space.
pub open spec fn words(s: Seq<char>) -> Seq<Seq<char>> {
    words_from(s, seq![])
}

/// `spans` picks, in order, the pieces `parts` out of `v`.
pub open spec fn spans_pick(v: Seq<char>, spans: Seq<(usize, usize)>, parts: Seq<Seq<char>>) -> bool {
    &&& spans.len() == parts.len()
    &&& forall|k: int|
        0 <= k < spans.len() ==> {
            &&& (#[trigger] spans[k]).0 <= spans[k].1 <= v.len()
            &&& v.subrange(spans[k].0 as int, spans[k].1 as int) == parts[k]
        }
}

/// The spans of the lines of `v`.
pub fn line_spans(v: &Vec<char>) -> (r: Vec<(usize, usize)>)
    ensures
        spans_pick(v@, r@, lines(v@)),
{
    let n = v.len();
    let mut r: Vec<(usize, usize)> = Vec::new();
    let ghost mut done: Seq<Seq<char>> = seq![];
    let mut start: usize = 0;
    let mut i: usize = 0;
    assert(v@.skip(0) =~= v@);
    assert(v@.subrange(0, 0) =~= Seq::<char>::empty());
    while i < n
        invariant
            n == v@.len(),
            start <= i <= n,
            spans_pick(v@, r@, done),
            lines(v@) == done + lines_from(v@.skip(i as int), v@.subrange(start as int, i as int)),
        decreases n - i,
    {
        let ghost cur = v@.subrange(start as int, i as int);
        assert(v@.skip(i as int).drop_first() =~= v@.skip(i + 1));
        assert(v@.skip(i as int)[0] == v@[i as int]);
        if v[i] == '\n' {
            let end = if i > start && v[i - 1] == '\r' {
                i - 1
            } else {
                i
            };
            assert(v@.subrange(start as int, end as int) =~= strip_cr(cur));
            r.push((start, end));
            proof {
                assert(lines_from(v@.skip(i as int), cur) == seq![strip_cr(cur)] + lines_from(
                    v@.skip(i + 1),
                    seq![],
                ));
                assert(done + lines_from(v@.skip(i as int), cur) =~= done.push(strip_cr(cur))
                    + lines_from(v@.skip(i + 1), seq![]));
                done = done.push(strip_cr(cur));
                assert(v@.subrange(i + 1, i + 1) =~= Seq::<char>::empty());
            }
            start = i + 1;
        } else {
            assert(cur.push(v@[i as int]) =~= v@.subrange(start as int, i + 1));
        }
        i = i + 1;
    }
    assert(v@.skip(n as int) =~= Seq::<char>::empty());
    if start < n {
        r.push((start, n));
        proof {
            let cur = v@.subrange(start as int, n as int);
            assert(done + seq![cur] =~= done.push(cur));
            done = done.push(cur);
        }
    } else {
        assert(done + Seq::<Seq<char>>::empty() =~= done);
    }
    r
}

/// The spans of the words of `v`.
pub fn word_spans(v: &Vec<char>) -> (r: Vec<(usize, usize)>)
    ensures
        spans_pick(v@, r@, words(v@)),
{
    let n = v.len();
    let mut r: Vec<(usize, usize)> = Vec::new();
    let ghost mut done: Seq<Seq<char>> = seq![];
    let mut start: usize = 0;
    let mut i: usize = 0;
    assert(v@.skip(0) =~= v@);
    assert(v@.subrange(0, 0) =~= Seq::<char>::empty());
    while i < n
        invariant
            n == v@.len(),
            start <= i <= n,
            spans_pick(v@, r@, done),
            words(v@) == done + words_from(v@.skip(i as int), v@.subrange(start as int, i as int)),
        decreases n - i,
    {
        let ghost cur = v@.subrange(start as int, i as int);
        assert(v@.skip(i as int).drop_first() =~= v@.skip(i + 1));
        assert(v@.skip(i as int)[0] == v@[i as int]);
        if white_space(v[i]) {
            if start < i {
                r.push((start, i));
                proof {
                    assert(done + words_from(v@.skip(i as int), cur) =~= done.push(cur)
                        + words_from(v@.skip(i + 1), seq![]));
                    done = done.push(cur);
                }
            }
            assert(v@.subrange(i + 1, i + 1) =~= Seq::<char>::empty());
            start = i + 1;
        } else {
            assert(cur.push(v@[i as int]) =~= v@.subrange(start as int, i + 1));
        }
        i = i + 1;
    }
    assert(v@.skip(n as int) =~= Seq::<char>::empty());
    if start < n {
        r.push((start, n));
        proof {
            let cur = v@.subrange(start as int, n as int);
            assert(done + seq![cur] =~= done.push(cur));
            done = done.push(cur);
        }
    } else {
        assert(done + Seq::<Seq<char>>::empty() =~= done);
    }
    r
}

/// Splitting at a white space character splits the words there.
pub proof fn lemma_words_split(a: Seq<char>, t: Seq<char>, cur: Seq<char>)
    requires
        t.len() > 0,
        is_white_space(t[0]),
    ensures
        words_from(a + t, cur) == words_from(a, cur) + words_from(t, seq![]),
    decreases a.len(),
{
    if a.len() == 0 {
        assert(a + t =~= t);
        assert(t.drop_first() == t.drop_first());
        if cur.len() == 0 {
            assert(words_from(a, cur) + words_from(t, seq![]) =~= words_from(t, seq![]));
        } else {
            assert(words_from(t, seq![]) == words_from(t.drop_first(), seq![]));
        }
    } else {
        assert((a + t)[0] == a[0]);
        assert((a + t).drop_first() =~= a.drop_first() + t);
        if is_white_space(a[0]) {
            lemma_words_split(a.drop_first(), t, seq![]);
            if cur.len() > 0 {
                assert(seq![cur] + (words_from(a.drop_first(), seq![]) + words_from(t, seq![]))
                    =~= seq![cur] + words_from(a.drop_first(), seq![]) + words_from(t, seq![]));
            }
        } else {
            lemma_words_split(a.drop_first(), t, cur.push(a[0]));
        }
    }
}

/// The words of two texts joined by a newline are the words of the first
/// followed by those of the second.
pub proof fn lemma_words_joined(a: Seq<char>, b: Seq<char>)
    ensures
        words(a + seq!['\n'] + b) == words(a) + words(b),
{
    let t = seq!['\n'] + b;
    assert(a + seq!['\n'] + b =~= a + t);
    assert(t[0] == '\n');
    lemma_words_split(a, t, seq![]);
    assert(t.drop_first() =~= b);
}

// ---------------------------------------------------------------------------
// Substrings
// ---------------------------------------------------------------------------

pub open spec fn occurs_at(s: Seq<char>, p: Seq<char>, i: int) -> bool {
    0 <= i && i + p.len() <= s.len() && s.subrange(i, i + p.len()) == p
}

/// `str::contains` with a string pattern.
pub open spec fn contains(s: Seq<char>, p: Seq<char>) -> bool {
    exists|i: int| #[trigger] occurs_at(s, p, i)
}

/// `str::starts_with` with a string pattern.
pub open spec fn starts_with(s: Seq<char>, p: Seq<char>) -> bool {
    p.len() <= s.len() && s.subrange(0, p.len() as int) == p
}

/// Does `p` stand in `v` at index `i`?
pub fn matches_at(v: &Vec<char>, i: usize, p: &Vec<char>) -> (b: bool)
    requires
        i + p@.len() <= v@.len(),
    ensures
        b == (v@.subrange(i as int, i + p@.len()) == p@),
{
    let n = v.len();
    let mut k: usize = 0;
    while k < p.len()
        invariant
            k <= p@.len(),
            n == v@.len(),
            i + p@.len() <= v@.len(),
            forall|j: int| 0 <= j < k ==> v@[i + j] == p@[j],
        decreases p@.len() - k,
    {
        if v[i + k] != p[k] {
            assert(v@.subrange(i as int, i + p@.len())[k as int] != p@[k as int]);
            return false;
        }
        k = k + 1;
    }
    assert(v@.subrange(i as int, i + p@.len()) =~= p@);
    true
}

/// Does `p` occur in the span `lo..hi` of `v`?
pub fn span_contains(v: &Vec<char>, lo: usize, hi: usize, p: &Vec<char>) -> (b: bool)
    requires
        lo <= hi <= v@.len(),
    ensures
        b == contains(v@.subrange(lo as int, hi as int), p@),
{
    let ghost s = v@.subrange(lo as int, hi as int);
    if p.len() == 0 {
        assert(s.subrange(0, 0) =~= p@);
        assert(occurs_at(s, p@, 0));
        return true;
    }
    let mut i = lo;
    while p.len() <= hi - i
        invariant
            lo <= i <= hi,
            hi <= v@.len(),
            p@.len() >= 1,
            s == v@.subrange(lo as int, hi as int),
            forall|j: int| 0 <= j < i - lo ==> !occurs_at(s, p@, j),
        decreases hi - i,
    {
        assert(s.subrange(i - lo, i - lo + p@.len()) =~= v@.subrange(i as int, i + p@.len()));
        if matches_at(v, i, p) {
            assert(occurs_at(s, p@, i - lo));
            return true;
        }
        i = i + 1;
    }
    assert forall|j: int| !occurs_at(s, p@, j) by {
        if 0 <= j && j + p@.len() <= s.len() {
            assert(j < i - lo);
        }
    }
    false
}

/// A trim never cuts into an occurrence of a pattern none of whose
/// characters it strips.
pub proof fn lemma_trim_keeps(s: Seq<char>, p: Seq<char>, e: Edge)
    requires
        contains(s, p),
        p.len() > 0,
        forall|k: int| 0 <= k < p.len() ==> !strips(e, #[trigger] p[k]),
    ensures
        contains(trim_by(s, e), p),
{
    lemma_trim_start_keeps(s, p, e);
    lemma_trim_end_keeps(trim_start_by(s, e), p, e);
}

proof fn lemma_trim_start_keeps(s: Seq<char>, p: Seq<char>, e: Edge)
    requires
        contains(s, p),
        p.len() > 0,
        forall|k: int| 0 <= k < p.len() ==> !strips(e, #[trigger] p[k]),
    ensures
        contains(trim_start_by(s, e), p),
    decreases s.len(),
{
    if s.len() > 0 && strips(e, s[0]) {
        let i = choose|i: int| occurs_at(s, p, i);
        assert(s[i] == s.subrange(i, i + p.len())[0]);
        assert(i != 0);
        let t = s.drop_first();
        assert(t.subrange(i - 1, i - 1 + p.len()) =~= s.subrange(i, i + p.len()));
        assert(occurs_at(t, p, i - 1));
        lemma_trim_start_keeps(t, p, e);
    }
}

proof fn lemma_trim_end_keeps(s: Seq<char>, p: Seq<char>, e: Edge)
    requires
        contains(s, p),
        p.len() > 0,
        forall|k: int| 0 <= k < p.len() ==> !strips(e, #[trigger] p[k]),
    ensures
        contains(trim_end_by(s, e), p),
    decreases s.len(),
{
    if s.len() > 0 && strips(e, s.last()) {
        let i = choose|i: int| occurs_at(s, p, i);
        if i + p.len() == s.len() {
            assert(s.last() == s.subrange(i, i + p.len())[p.len() - 1]);
            assert(!strips(e, p[p.len() - 1]));
        }
        let t = s.drop_last();
        assert(t.subrange(i, i + p.len()) =~= s.subrange(i, i + p.len()));
        assert(occurs_at(t, p, i));
        lemma_trim_end_keeps(t, p, e);
    }
}

// ---------------------------------------------------------------------------
// Building strings
// ---------------------------------------------------------------------------

/// The characters of a string slice, in order.
pub fn chars_of(s: &str) -> (v: Vec<char>)
    ensures
        v@ == s@,
{
    let mut v: Vec<char> = Vec::new();
    for c in it: s.chars()
        invariant
            v@ == it.seq().take(it.index() as int),
    {
        v.push(c);
    }
    v
}

/// An owned copy of a string slice.
pub fn owned(s: &str) -> (r: String)
    ensures
        r@ == s@,
{
    String::from_str(s)
}

/// The span `lo..hi` of `s`, where `v` holds the characters of `s`.
pub fn span_string(s: &str, v: &Vec<char>, lo: usize, hi: usize) -> (r: String)
    requires
        v@ == s@,
        lo <= hi <= v@.len(),
    ensures
        r@ == s@.subrange(lo as int, hi as int),
{
    String::from_str(s.substring_char(lo, hi))
}

/// `a` followed by `b`.
pub fn concat(a: &str, b: &str) -> (r: String)
    ensures
        r@ == a@ + b@,
{
    let mut r = String::from_str(a);
    r.append(b);
    r
}

/// What `String::from_utf8_lossy` makes of `bytes`.
pub uninterp spec fn utf8_lossy(bytes: Seq<u8>) -> Seq<char>;

/// `String::from_utf8_lossy`, taken to an owned `String`. The contract names
/// its result and states what its documentation promises: valid UTF-8 comes
/// back as the characters it encodes. How invalid sequences are replaced
/// (U+FFFD per maximal invalid subpart) is left unsaid.
#[verifier::external_body]
pub(crate) fn from_utf8_lossy(bytes: &[u8]) -> (r: String)
    ensures
        r@ == utf8_lossy(bytes@),
        valid_utf8(bytes@) ==> r@ == decode_utf8(bytes@),
{
    String::from_utf8_lossy(bytes).to_string()
}

/// `s` without its leading and trailing white space, as a new string.
pub fn trimmed(s: &str) -> (r: String)
    ensures
        r@ == trim(s@),
{
    let v = chars_of(s);
    assert(v@.subrange(0, v@.len() as int) =~= v@);
    let (a, b) = trim_span(&v, 0, v.len(), Edge::WhiteSpace);
    span_string(s, &v, a, b)
}

// ---------------------------------------------------------------------------
// Decimal numbers
// ---------------------------------------------------------------------------

/// The decimal digit for `d < 10`.
pub open spec fn digit(d: nat) -> char {
    seq!['0', '1', '2', '3', '4', '5', '6', '7', '8', '9'][d as int]
}

/// `n` in decimal, without leading zeros (what `Display` prints for an
/// unsigned integer).
pub open spec fn dec(n: nat) -> Seq<char>
    decreases n,
{
    if n < 10 {
        seq![digit(n)]
    } else {
        dec(n / 10).push(digit(n % 10))
    }
}

/// The last `k` decimal digits of `n`, zero-padded to exactly `k` digits.
pub open spec fn padded(n: nat, k: nat) -> Seq<char>
    decreases k,
{
    if k == 0 {
        seq![]
    } else {
        padded(n / 10, (k - 1) as nat).push(digit(n % 10))
    }
}

/// A signed integer in decimal (what `Display` prints for it).
pub open spec fn signed_dec(i: int) -> Seq<char> {
    if i < 0 {
        seq!['-'] + dec((-i) as nat)
    } else {
        dec(i as nat)
    }
}

fn digit_str(d: u128) -> (r: &'static str)
    requires
        d < 10,
    ensures
        r@ == seq![digit(d as nat)],
{
    proof {
        reveal_strlit("0");
        reveal_strlit("1");
        reveal_strlit("2");
        reveal_strlit("3");
        reveal_strlit("4");
        reveal_strlit("5");
        reveal_strlit("6");
        reveal_strlit("7");
        reveal_strlit("8");
        reveal_strlit("9");
    }
    if d == 0 {
        "0"
    } else if d == 1 {
        "1"
    } else if d == 2 {
        "2"
    } else if d == 3 {
        "3"
    } else if d == 4 {
        "4"
    } else if d == 5 {
        "5"
    } else if d == 6 {
        "6"
    } else if d == 7 {
        "7"
    } else if d == 8 {
        "8"
    } else {
        "9"
    }
}

/// Appends `n` in decimal.
pub fn push_dec(s: &mut String, n: u128)
    ensures
        final(s)@ == old(s)@ + dec(n as nat),
    decreases n,
{
    if n >= 10 {
        push_dec(s, n / 10);
    }
    s.append(digit_str(n % 10));
    proof {
        if n >= 10 {
            assert(old(s)@ + dec(n as nat) =~= old(s)@ + dec((n / 10) as nat) + seq![
                digit((n % 10) as nat),
            ]);
        }
    }
}

/// Appends the last `k` digits of `n`, zero-padded to `k` digits.
pub fn push_padded(s: &mut String, n: u128, k: u32)
    ensures
        final(s)@ == old(s)@ + padded(n as nat, k as nat),
    decreases k,
{
    if k > 0 {
        push_padded(s, n / 10, k - 1);
        s.append(digit_str(n % 10));
        assert(old(s)@ + padded(n as nat, k as nat) =~= old(s)@ + padded(
            (n / 10) as nat,
            (k - 1) as nat,
        ) + seq![digit((n % 10) as nat)]);
    } else {
        assert(old(s)@ + padded(n as nat, k as nat) =~= old(s)@);
    }
}

/// `n` in decimal, as a new string.
pub fn dec_string(n: u128) -> (r: String)
    ensures
        r@ == dec(n as nat),
{
    let mut r = String::new();
    push_dec(&mut r, n);
    assert(Seq::<char>::empty() + dec(n as nat) =~= dec(n as nat));
    r
}

/// A signed 32-bit integer in decimal, as a new string.
pub fn signed_dec_string(i: i32) -> (r: String)
    ensures
        r@ == signed_dec(i as int),
{
    let mut r = String::new();
    if i < 0 {
        proof {
            reveal_strlit("-");
        }
        r.append("-");
        let m: i64 = 0 - (i as i64);
        push_dec(&mut r, m as u128);
    } else {
        push_dec(&mut r, i as u128);
        assert(Seq::<char>::empty() + dec(i as nat) =~= dec(i as nat));
    }
    r
}

} // verus!
