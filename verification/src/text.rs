//! Text as sequences of characters: white space, trimming, prefixes, words.

use vstd::prelude::*;
use vstd::string::*;
use vstd::utf8::*;

verus! {

/// The characters with the Unicode `White_Space` property.
pub open spec fn white(c: char) -> bool {
    ||| '\u{9}' <= c <= '\u{d}'
    ||| c == '\u{20}'
    ||| c == '\u{85}'
    ||| c == '\u{a0}'
    ||| c == '\u{1680}'
    ||| '\u{2000}' <= c <= '\u{200a}'
    ||| c == '\u{2028}'
    ||| c == '\u{2029}'
    ||| c == '\u{202f}'
    ||| c == '\u{205f}'
    ||| c == '\u{3000}'
}

/// Tells whether `c` has the Unicode `White_Space` property.
pub fn is_white(c: char) -> (r: bool)
    ensures
        r == white(c),
{
    ('\u{9}' <= c && c <= '\u{d}') || c == '\u{20}' || c == '\u{85}' || c == '\u{a0}' || c
        == '\u{1680}' || ('\u{2000}' <= c && c <= '\u{200a}') || c == '\u{2028}' || c
        == '\u{2029}' || c == '\u{202f}' || c == '\u{205f}' || c == '\u{3000}'
}

/// The characters of `s`, one by one.
pub fn chars_of(s: &str) -> (r: Vec<char>)
    ensures
        r@ == s@,
{
    let mut out: Vec<char> = Vec::new();
    for c in it: s.chars()
        invariant
            out@ == it.seq().take(it.index()),
            it.seq() == s@,
    {
        out.push(c);
    }
    out
}

/// Whether `a` and `b` hold the same characters.
pub fn same(a: &str, b: &str) -> (r: bool)
    ensures
        r == (a@ == b@),
{
    let x = chars_of(a);
    let y = chars_of(b);
    if x.len() != y.len() {
        return false;
    }
    let mut i: usize = 0;
    while i < x.len()
        invariant
            x@ == a@,
            y@ == b@,
            x.len() == y.len(),
            i <= x.len(),
            forall|j: int| 0 <= j < i ==> x@[j] == y@[j],
        decreases x.len() - i,
    {
        if x[i] != y[i] {
            assert(a@[i as int] != b@[i as int]);
            return false;
        }
        i += 1;
    }
    assert(a@ =~= b@);
    true
}

/// `s` without its leading white space.
pub open spec fn without_leading(s: Seq<char>) -> Seq<char>
    decreases s.len(),
{
    if s.len() > 0 && white(s[0]) {
        without_leading(s.drop_first())
    } else {
        s
    }
}

/// `s` without its trailing white space.
pub open spec fn without_trailing(s: Seq<char>) -> Seq<char>
    decreases s.len(),
{
    if s.len() > 0 && white(s.last()) {
        without_trailing(s.drop_last())
    } else {
        s
    }
}

/// `s` without the white space around it.
pub open spec fn trimmed(s: Seq<char>) -> Seq<char> {
    without_trailing(without_leading(s))
}

/// Whether `s` holds nothing but white space.
pub open spec fn blank(s: Seq<char>) -> bool {
    trimmed(s).len() == 0
}

pub proof fn lemma_without_leading(s: Seq<char>, k: int)
    requires
        0 <= k <= s.len(),
        forall|i: int| 0 <= i < k ==> white(#[trigger] s[i]),
        k < s.len() ==> !white(s[k]),
    ensures
        without_leading(s) == s.skip(k),
    decreases k,
{
    if k > 0 {
        assert(white(s[0]));
        assert forall|i: int| 0 <= i < k - 1 implies white(#[trigger] s.drop_first()[i]) by {
            assert(white(s[i + 1]));
        }
        lemma_without_leading(s.drop_first(), k - 1);
        assert(s.drop_first().skip(k - 1) =~= s.skip(k));
    } else {
        assert(s.skip(0) =~= s);
    }
}

pub proof fn lemma_without_trailing(s: Seq<char>, k: int)
    requires
        0 <= k <= s.len(),
        forall|i: int| k <= i < s.len() ==> white(#[trigger] s[i]),
        k > 0 ==> !white(s[k - 1]),
    ensures
        without_trailing(s) == s.take(k),
    decreases s.len() - k,
{
    if k < s.len() {
        assert(white(s.last()));
        lemma_without_trailing(s.drop_last(), k);
        assert(s.drop_last().take(k) =~= s.take(k));
    } else {
        assert(s.take(k) =~= s);
    }
}

/// How many characters at the front of `cs` are white space.
fn leading_white(cs: &Vec<char>) -> (k: usize)
    ensures
        k <= cs.len(),
        forall|i: int| 0 <= i < k ==> white(#[trigger] cs@[i]),
        k < cs.len() ==> !white(cs@[k as int]),
{
    let mut k: usize = 0;
    while k < cs.len() && is_white(cs[k])
        invariant
            k <= cs.len(),
            forall|i: int| 0 <= i < k ==> white(#[trigger] cs@[i]),
        decreases cs.len() - k,
    {
        k += 1;
    }
    k
}

/// `s` without its leading white space.
pub fn trim_start(s: &str) -> (r: &str)
    ensures
        r@ == without_leading(s@),
{
    let cs = chars_of(s);
    let k: usize = leading_white(&cs);
    proof {
        lemma_without_leading(s@, k as int);
        assert(s@.subrange(k as int, s@.len() as int) =~= s@.skip(k as int));
    }
    s.substring_char(k, cs.len())
}

/// `s` without its trailing white space.
pub fn trim_end(s: &str) -> (r: &str)
    ensures
        r@ == without_trailing(s@),
{
    let cs = chars_of(s);
    let mut k: usize = cs.len();
    while k > 0 && is_white(cs[k - 1])
        invariant
            k <= cs.len(),
            cs@ == s@,
            forall|i: int| k <= i < s@.len() ==> white(#[trigger] s@[i]),
        decreases k,
    {
        k -= 1;
    }
    proof {
        lemma_without_trailing(s@, k as int);
        assert(s@.subrange(0, k as int) =~= s@.take(k as int));
    }
    s.substring_char(0, k)
}

/// `s` without the white space around it.
pub fn trim(s: &str) -> (r: &str)
    ensures
        r@ == trimmed(s@),
{
    trim_end(trim_start(s))
}

/// Whether `s` holds nothing but white space.
pub fn is_blank(s: &str) -> (r: bool)
    ensures
        r == blank(s@),
{
    trim(s).is_empty()
}

/// Whether `s` begins with `p`.
pub open spec fn begins(s: Seq<char>, p: Seq<char>) -> bool {
    p.len() <= s.len() && s.take(p.len() as int) == p
}

/// Whether `cs` holds the characters of `p` from position `at` on.
fn matches_at(cs: &Vec<char>, at: usize, p: &Vec<char>) -> (r: bool)
    requires
        at <= cs.len(),
    ensures
        r == (at + p.len() <= cs.len() && cs@.subrange(at as int, at + p.len()) == p@),
{
    if p.len() > cs.len() - at {
        return false;
    }
    let mut i: usize = 0;
    while i < p.len()
        invariant
            at + p.len() <= cs.len(),
            i <= p.len(),
            forall|j: int| 0 <= j < i ==> cs@[at + j] == p@[j],
        decreases p.len() - i,
    {
        if cs[at + i] != p[i] {
            assert(cs@.subrange(at as int, at + p.len())[i as int] != p@[i as int]);
            return false;
        }
        i += 1;
    }
    assert(cs@.subrange(at as int, at + p.len()) =~= p@);
    true
}

/// Whether `s` begins with `p`.
pub fn starts_with(s: &str, p: &str) -> (r: bool)
    ensures
        r == begins(s@, p@),
{
    let cs = chars_of(s);
    let ps = chars_of(p);
    assert(p@.len() <= s@.len() ==> s@.subrange(0, p@.len() as int) =~= s@.take(p@.len() as int));
    matches_at(&cs, 0, &ps)
}

/// What follows `p` in `s`, where `s` begins with `p`.
pub fn strip_prefix<'a>(s: &'a str, p: &str) -> (r: Option<&'a str>)
    ensures
        match r {
            Some(rest) => begins(s@, p@) && rest@ == s@.skip(p@.len() as int),
            None => !begins(s@, p@),
        },
{
    if starts_with(s, p) {
        let n: usize = p.unicode_len();
        let m: usize = s.unicode_len();
        assert(s@.subrange(n as int, m as int) =~= s@.skip(n as int));
        Some(s.substring_char(n, m))
    } else {
        None
    }
}

/// Whether `p` stands in `s` at position `i`.
pub open spec fn occurs_at(s: Seq<char>, p: Seq<char>, i: int) -> bool {
    0 <= i && i + p.len() <= s.len() && s.subrange(i, i + p.len()) == p
}

/// Whether `p` stands somewhere in `s`.
pub open spec fn occurs(s: Seq<char>, p: Seq<char>) -> bool {
    exists|i: int| #[trigger] occurs_at(s, p, i)
}

/// Whether `p` stands somewhere in `s`.
pub fn contains(s: &str, p: &str) -> (r: bool)
    ensures
        r == occurs(s@, p@),
{
    let cs = chars_of(s);
    let ps = chars_of(p);
    let mut i: usize = 0;
    while i < cs.len()
        invariant
            i <= cs.len(),
            cs@ == s@,
            ps@ == p@,
            forall|j: int| 0 <= j < i ==> !#[trigger] occurs_at(s@, p@, j),
        decreases cs.len() - i,
    {
        if matches_at(&cs, i, &ps) {
            assert(occurs_at(s@, p@, i as int));
            return true;
        }
        i += 1;
    }
    let last = matches_at(&cs, i, &ps);
    assert(last == occurs_at(s@, p@, i as int));
    last
}

/// How many characters at the front of `s` are not white space.
pub open spec fn word_len(s: Seq<char>) -> nat
    decreases s.len(),
{
    if s.len() > 0 && !white(s[0]) {
        1 + word_len(s.drop_first())
    } else {
        0
    }
}

pub proof fn lemma_word_len(s: Seq<char>)
    ensures
        word_len(s) <= s.len(),
        forall|i: int| 0 <= i < word_len(s) ==> !white(#[trigger] s[i]),
        word_len(s) < s.len() ==> white(s[word_len(s) as int]),
    decreases s.len(),
{
    if s.len() > 0 && !white(s[0]) {
        let t = s.drop_first();
        lemma_word_len(t);
        assert forall|i: int| 0 <= i < word_len(s) implies !white(#[trigger] s[i]) by {
            if i > 0 {
                assert(!white(t[i - 1]));
            }
        }
    }
}

pub proof fn lemma_word_len_is(s: Seq<char>, k: int)
    requires
        0 <= k <= s.len(),
        forall|i: int| 0 <= i < k ==> !white(#[trigger] s[i]),
        k < s.len() ==> white(s[k]),
    ensures
        word_len(s) == k,
{
    lemma_word_len(s);
    let n = word_len(s) as int;
    if n < k {
        assert(!white(s[n]));
    }
    if k < n {
        assert(white(s[k]));
    }
}

/// How many characters at the front of `s` are not white space.
pub fn word_count(s: &str) -> (n: usize)
    ensures
        n == word_len(s@),
        n <= s@.len(),
{
    let cs = chars_of(s);
    let mut n: usize = 0;
    while n < cs.len() && !is_white(cs[n])
        invariant
            n <= cs.len(),
            cs@ == s@,
            forall|i: int| 0 <= i < n ==> !white(#[trigger] s@[i]),
        decreases cs.len() - n,
    {
        n += 1;
    }
    proof {
        lemma_word_len_is(s@, n as int);
    }
    n
}

pub proof fn lemma_without_leading_len(s: Seq<char>)
    ensures
        without_leading(s).len() <= s.len(),
        without_leading(s).len() > 0 ==> !white(without_leading(s)[0]),
        without_leading(s) == s.skip(s.len() - without_leading(s).len()),
    decreases s.len(),
{
    if s.len() > 0 && white(s[0]) {
        lemma_without_leading_len(s.drop_first());
        let n = without_leading(s).len();
        assert(s.drop_first().skip(s.len() - 1 - n) =~= s.skip(s.len() - n));
    } else {
        assert(s.skip(0) =~= s);
    }
}

/// The words of `s`: its longest stretches without white space, in order.
pub open spec fn words(s: Seq<char>) -> Seq<Seq<char>>
    decreases s.len(),
{
    let t = without_leading(s);
    if t.len() == 0 {
        Seq::empty()
    } else {
        proof {
            lemma_without_leading_len(s);
            lemma_word_len(t);
        }
        seq![t.take(word_len(t) as int)] + words(t.skip(word_len(t) as int))
    }
}

/// The contents of a list of strings.
pub open spec fn texts(v: Seq<String>) -> Seq<Seq<char>> {
    v.map_values(|s: String| s@)
}

/// The words of `s`, in order.
pub fn split_words(s: &str) -> (r: Vec<String>)
    ensures
        texts(r@) == words(s@),
{
    let cs = chars_of(s);
    let mut out: Vec<String> = Vec::new();
    let mut i: usize = 0;
    assert(s@.skip(0) =~= s@);
    assert(texts(out@) + words(s@) =~= words(s@));
    while i < cs.len()
        invariant
            i <= cs.len(),
            cs@ == s@,
            texts(out@) + words(s@.skip(i as int)) == words(s@),
        decreases cs.len() - i,
    {
        let ghost rest = s@.skip(i as int);
        if is_white(cs[i]) {
            assert(rest.drop_first() =~= s@.skip(i + 1));
            assert(words(rest) == words(rest.drop_first()));
            i += 1;
        } else {
            let start: usize = i;
            while i < cs.len() && !is_white(cs[i])
                invariant
                    start <= i <= cs.len(),
                    cs@ == s@,
                    forall|j: int| start <= j < i ==> !white(#[trigger] s@[j]),
                decreases cs.len() - i,
            {
                i += 1;
            }
            let word = s.substring_char(start, i);
            proof {
                assert forall|j: int| 0 <= j < i - start implies !white(#[trigger] rest[j]) by {
                    assert(!white(s@[start + j]));
                }
                lemma_word_len_is(rest, i - start);
                assert(without_leading(rest) == rest);
                assert(rest.take(i - start) =~= word@);
                assert(rest.skip(i - start) =~= s@.skip(i as int));
                assert(words(rest) == seq![word@] + words(s@.skip(i as int)));
            }
            let ghost before = out@;
            out.push(word.to_owned());
            assert(texts(out@) =~= texts(before) + seq![word@]);
            assert(texts(before) + (seq![word@] + words(s@.skip(i as int))) =~= texts(out@)
                + words(s@.skip(i as int)));
        }
    }
    proof {
        assert(s@.skip(i as int).len() == 0);
        assert(words(s@.skip(i as int)) =~= Seq::<Seq<char>>::empty());
        assert(texts(out@) + Seq::<Seq<char>>::empty() =~= texts(out@));
    }
    out
}

/// `parts` one after the other, with `sep` between them.
pub open spec fn joined(parts: Seq<Seq<char>>, sep: Seq<char>) -> Seq<char>
    decreases parts.len(),
{
    if parts.len() == 0 {
        Seq::empty()
    } else if parts.len() == 1 {
        parts[0]
    } else {
        joined(parts.drop_last(), sep) + sep + parts.last()
    }
}

/// `parts` one after the other, with `sep` between them.
pub fn join(parts: &Vec<String>, sep: &str) -> (r: String)
    ensures
        r@ == joined(texts(parts@), sep@),
{
    let mut out = String::new();
    let mut i: usize = 0;
    assert(texts(parts@).take(0) =~= Seq::<Seq<char>>::empty());
    while i < parts.len()
        invariant
            i <= parts.len(),
            out@ == joined(texts(parts@).take(i as int), sep@),
        decreases parts.len() - i,
    {
        proof {
            let next = texts(parts@).take(i + 1);
            assert(next.drop_last() =~= texts(parts@).take(i as int));
            assert(next.last() == parts@[i as int]@);
            if i == 0 {
                assert(next[0] == parts@[0]@);
                assert(out@ + parts@[0]@ =~= parts@[0]@);
            }
        }
        if i > 0 {
            out.append(sep);
        }
        out.append(parts[i].as_str());
        i += 1;
    }
    assert(texts(parts@).take(i as int) =~= texts(parts@));
    out
}

/// `s` without the `c`s at its front.
pub open spec fn without_front(s: Seq<char>, c: char) -> Seq<char>
    decreases s.len(),
{
    if s.len() > 0 && s[0] == c {
        without_front(s.drop_first(), c)
    } else {
        s
    }
}

/// `s` without the `c`s at its end.
pub open spec fn without_back(s: Seq<char>, c: char) -> Seq<char>
    decreases s.len(),
{
    if s.len() > 0 && s.last() == c {
        without_back(s.drop_last(), c)
    } else {
        s
    }
}

/// `s` without the `c`s at its front.
pub fn trim_front_char(s: &str, c: char) -> (r: &str)
    ensures
        r@ == without_front(s@, c),
{
    let cs = chars_of(s);
    let mut k: usize = 0;
    assert(s@.skip(0) =~= s@);
    while k < cs.len() && cs[k] == c
        invariant
            k <= cs.len(),
            cs@ == s@,
            without_front(s@.skip(k as int), c) == without_front(s@, c),
        decreases cs.len() - k,
    {
        assert(s@.skip(k as int).drop_first() =~= s@.skip(k + 1));
        k += 1;
    }
    assert(s@.subrange(k as int, s@.len() as int) =~= s@.skip(k as int));
    s.substring_char(k, cs.len())
}

/// `s` without the `c`s at its end.
pub fn trim_back_char(s: &str, c: char) -> (r: &str)
    ensures
        r@ == without_back(s@, c),
{
    let cs = chars_of(s);
    let mut k: usize = cs.len();
    assert(s@.take(k as int) =~= s@);
    while k > 0 && cs[k - 1] == c
        invariant
            k <= cs.len(),
            cs@ == s@,
            without_back(s@.take(k as int), c) == without_back(s@, c),
        decreases k,
    {
        assert(s@.take(k as int).drop_last() =~= s@.take(k - 1));
        k -= 1;
    }
    assert(s@.subrange(0, k as int) =~= s@.take(k as int));
    s.substring_char(0, k)
}

/// `s` without the `c`s around it.
pub open spec fn unwrapped(s: Seq<char>, c: char) -> Seq<char> {
    without_back(without_front(s, c), c)
}

/// `s` without the `c`s around it.
pub fn trim_char(s: &str, c: char) -> (r: &str)
    ensures
        r@ == unwrapped(s@, c),
{
    trim_back_char(trim_front_char(s, c), c)
}

/// Whether `s` ends with `p`.
pub open spec fn ends(s: Seq<char>, p: Seq<char>) -> bool {
    p.len() <= s.len() && s.skip(s.len() - p.len()) == p
}

/// `s` without the copies of `p` at its end.
pub open spec fn without_suffixes(s: Seq<char>, p: Seq<char>) -> Seq<char>
    decreases s.len(),
{
    if p.len() > 0 && ends(s, p) {
        without_suffixes(s.take(s.len() - p.len()), p)
    } else {
        s
    }
}

/// `s` without the copies of `p` at its end.
pub fn trim_suffixes<'a>(s: &'a str, p: &str) -> (r: &'a str)
    ensures
        r@ == without_suffixes(s@, p@),
{
    let cs = chars_of(s);
    let ps = chars_of(p);
    let mut k: usize = cs.len();
    assert(s@.take(k as int) =~= s@);
    while ps.len() > 0 && ps.len() <= k && matches_at(&cs, k - ps.len(), &ps)
        invariant
            k <= cs.len(),
            cs@ == s@,
            ps@ == p@,
            without_suffixes(s@.take(k as int), p@) == without_suffixes(s@, p@),
        decreases k,
    {
        assert(s@.take(k as int).skip(k - p@.len()) =~= s@.subrange(k - p@.len(), k as int));
        assert(s@.take(k as int).take(k - p@.len()) =~= s@.take(k - p@.len()));
        k -= ps.len();
    }
    proof {
        if p@.len() > 0 && p@.len() <= k {
            assert(s@.take(k as int).skip(k - p@.len()) =~= s@.subrange(k - p@.len(), k as int));
        }
        assert(s@.subrange(0, k as int) =~= s@.take(k as int));
    }
    s.substring_char(0, k)
}

/// `std::string::String::push` appends one character to the end of the string.
pub assume_specification[ String::push ](s: &mut String, c: char)
    ensures
        final(s)@ == old(s)@.push(c),
;

/// `s` in quotation marks, with its special characters escaped.
pub uninterp spec fn quoted(s: Seq<char>) -> Seq<char>;

/// `std::fmt::Debug::fmt` of `str`: the text as a literal, which depends on the text alone.
#[verifier::external_body]
pub(crate) fn quote(s: &str) -> (r: String)
    ensures
        r@ == quoted(s@),
{
    format!("{:?}", s)
}

/// `c` in upper case, where it is an ASCII letter.
pub open spec fn upper(c: char) -> char {
    if 'a' <= c <= 'z' {
        ((c as u32) - 32) as char
    } else {
        c
    }
}

/// `s` with its ASCII letters in upper case.
pub fn ascii_uppercase(s: &str) -> (r: String)
    ensures
        r@ == s@.map_values(|c: char| upper(c)),
{
    let cs = chars_of(s);
    let mut out = String::new();
    let mut i: usize = 0;
    while i < cs.len()
        invariant
            i <= cs.len(),
            cs@ == s@,
            out@ == s@.take(i as int).map_values(|c: char| upper(c)),
        decreases cs.len() - i,
    {
        let c = cs[i];
        let u: char = if 'a' <= c && c <= 'z' { ((c as u8) - 32) as char } else { c };
        assert(u == upper(c));
        out.push(u);
        assert(out@ =~= s@.take(i + 1).map_values(|c: char| upper(c)));
        i += 1;
    }
    assert(s@.take(i as int) =~= s@);
    out
}

/// How many bytes `s` takes in UTF-8.
pub open spec fn byte_len(s: Seq<char>) -> nat {
    encode_utf8(s).len()
}

/// The byte position of the `k`th character of `s`.
pub open spec fn offset(s: Seq<char>, k: int) -> nat {
    byte_len(s.take(k))
}

/// How many bytes `c` takes in UTF-8.
pub open spec fn width(c: char) -> nat {
    if c <= '\u{7f}' {
        1
    } else if c <= '\u{7ff}' {
        2
    } else if c <= '\u{ffff}' {
        3
    } else {
        4
    }
}

pub proof fn lemma_byte_len_add(a: Seq<char>, b: Seq<char>)
    ensures
        byte_len(a + b) == byte_len(a) + byte_len(b),
    decreases a.len(),
{
    if a.len() == 0 {
        assert(a + b =~= b);
    } else {
        lemma_byte_len_add(a.drop_first(), b);
        assert((a + b).drop_first() =~= a.drop_first() + b);
    }
}

pub proof fn lemma_byte_len_one(c: char)
    ensures
        byte_len(seq![c]) == width(c),
{
    let s = seq![c];
    assert(s.drop_first() =~= Seq::<char>::empty());
    assert(encode_utf8(s) == encode_scalar(c as u32) + encode_utf8(s.drop_first()));
}

pub proof fn lemma_offset_next(s: Seq<char>, k: int)
    requires
        0 <= k < s.len(),
    ensures
        offset(s, k + 1) == offset(s, k) + width(s[k]),
{
    assert(s.take(k + 1) =~= s.take(k) + seq![s[k]]);
    lemma_byte_len_add(s.take(k), seq![s[k]]);
    lemma_byte_len_one(s[k]);
}

/// A later character stands at a later byte.
pub proof fn lemma_offset_increases(s: Seq<char>, j: int, k: int)
    requires
        0 <= j < k <= s.len(),
    ensures
        offset(s, j) < offset(s, k),
    decreases k - j,
{
    lemma_offset_next(s, k - 1);
    if j < k - 1 {
        lemma_offset_increases(s, j, k - 1);
    }
}

/// How many bytes `c` takes in UTF-8.
pub fn char_width(c: char) -> (r: usize)
    ensures
        r == width(c),
{
    if c <= '\u{7f}' {
        1
    } else if c <= '\u{7ff}' {
        2
    } else if c <= '\u{ffff}' {
        3
    } else {
        4
    }
}

/// How many bytes `s` takes in UTF-8.
pub fn bytes_in(s: &str) -> (r: usize)
    ensures
        r == byte_len(s@),
{
    s.as_bytes().len()
}

/// The byte position of each character of `s`, and of its end.
pub fn offsets(s: &str) -> (r: Vec<usize>)
    ensures
        r.len() == s@.len() + 1,
        forall|k: int| 0 <= k <= s@.len() ==> #[trigger] r@[k] == offset(s@, k),
{
    let total: usize = bytes_in(s);
    let cs = chars_of(s);
    let mut out: Vec<usize> = Vec::new();
    let mut at: usize = 0;
    out.push(0);
    let mut i: usize = 0;
    assert(s@.take(s@.len() as int) =~= s@);
    assert(s@.take(0) =~= Seq::<char>::empty());
    while i < cs.len()
        invariant
            i <= cs.len(),
            cs@ == s@,
            total == offset(s@, s@.len() as int),
            at == offset(s@, i as int),
            out.len() == i + 1,
            forall|k: int| 0 <= k <= i ==> #[trigger] out@[k] == offset(s@, k),
        decreases cs.len() - i,
    {
        proof {
            lemma_offset_next(s@, i as int);
            if i + 1 < s@.len() {
                lemma_offset_increases(s@, i + 1, s@.len() as int);
            }
        }
        at += char_width(cs[i]);
        out.push(at);
        i += 1;
    }
    out
}

/// Whether no character of `s` stands across the byte position `pos`.
pub open spec fn boundary(s: Seq<char>, pos: nat) -> bool {
    exists|k: int| 0 <= k <= s.len() && #[trigger] offset(s, k) == pos
}

/// How many characters of `s` stand before the byte position `pos`.
pub open spec fn chars_before(s: Seq<char>, pos: nat) -> int {
    choose|k: int| 0 <= k <= s.len() && #[trigger] offset(s, k) == pos
}

pub proof fn lemma_chars_before(s: Seq<char>, k: int)
    requires
        0 <= k <= s.len(),
    ensures
        boundary(s, offset(s, k)),
        chars_before(s, offset(s, k)) == k,
{
    let m = chars_before(s, offset(s, k));
    assert(0 <= m <= s.len() && offset(s, m) == offset(s, k));
    if m < k {
        lemma_offset_increases(s, m, k);
    } else if k < m {
        lemma_offset_increases(s, k, m);
    }
}

/// How many characters of `s` stand before the byte position `pos`, unless one of them
/// stands across it.
pub fn char_index(s: &str, pos: usize) -> (r: Option<usize>)
    ensures
        match r {
            Some(k) => {
                &&& boundary(s@, pos as nat)
                &&& k == chars_before(s@, pos as nat)
                &&& k <= s@.len()
                &&& offset(s@, k as int) == pos
            },
            None => !boundary(s@, pos as nat),
        },
{
    let at = offsets(s);
    let mut k: usize = 0;
    while k < at.len()
        invariant
            k <= at.len(),
            at.len() == s@.len() + 1,
            forall|j: int| 0 <= j <= s@.len() ==> #[trigger] at@[j] == offset(s@, j),
            forall|j: int| 0 <= j < k ==> #[trigger] offset(s@, j) != pos,
        decreases at.len() - k,
    {
        assert(at@[k as int] == offset(s@, k as int));
        if at[k] == pos {
            proof {
                lemma_chars_before(s@, k as int);
            }
            return Some(k);
        }
        k += 1;
    }
    None
}

/// How many characters of `s` stand before the first `c`.
pub open spec fn before_first(s: Seq<char>, c: char) -> nat
    decreases s.len(),
{
    if s.len() == 0 || s[0] == c {
        0
    } else {
        1 + before_first(s.drop_first(), c)
    }
}

pub proof fn lemma_before_first(s: Seq<char>, c: char, k: int)
    requires
        0 <= k <= s.len(),
        forall|i: int| 0 <= i < k ==> #[trigger] s[i] != c,
        k < s.len() ==> s[k] == c,
    ensures
        before_first(s, c) == k,
    decreases k,
{
    if k > 0 {
        assert(s[0] != c);
        assert forall|i: int| 0 <= i < k - 1 implies #[trigger] s.drop_first()[i] != c by {
            assert(s[i + 1] != c);
        }
        lemma_before_first(s.drop_first(), c, k - 1);
    }
}

/// How many characters of `s` stand before the first `c`.
pub fn count_before(s: &str, c: char) -> (k: usize)
    ensures
        k == before_first(s@, c),
        k <= s@.len(),
        k < s@.len() ==> s@[k as int] == c,
        forall|i: int| 0 <= i < k ==> #[trigger] s@[i] != c,
{
    let cs = chars_of(s);
    let mut k: usize = 0;
    while k < cs.len() && cs[k] != c
        invariant
            k <= cs.len(),
            cs@ == s@,
            forall|i: int| 0 <= i < k ==> #[trigger] s@[i] != c,
        decreases cs.len() - k,
    {
        k += 1;
    }
    proof {
        lemma_before_first(s@, c, k as int);
    }
    k
}

/// Of the white space in a text only that around it goes: whatever stands between, white space
/// and line breaks too, is left as it is.
pub proof fn law_only_the_white_space_around_goes(
    front: Seq<char>,
    middle: Seq<char>,
    back: Seq<char>,
)
    requires
        forall|i: int| 0 <= i < front.len() ==> white(#[trigger] front[i]),
        forall|i: int| 0 <= i < back.len() ==> white(#[trigger] back[i]),
        middle.len() > 0 ==> !white(middle[0]) && !white(middle.last()),
    ensures
        trimmed(front + middle + back) == middle,
        blank(front + middle + back) == (middle.len() == 0),
{
    let s = front + middle + back;
    let k = front.len() as int;
    if middle.len() > 0 {
        assert(s[k] == middle[0]);
        lemma_without_leading(s, k);
        let t = s.skip(k);
        assert(t =~= middle + back);
        assert(t[middle.len() - 1] == middle.last());
        assert forall|i: int| middle.len() <= i < t.len() implies white(#[trigger] t[i]) by {
            assert(t[i] == back[i - middle.len()]);
        }
        lemma_without_trailing(t, middle.len() as int);
        assert(t.take(middle.len() as int) =~= middle);
    } else {
        assert forall|i: int| 0 <= i < s.len() implies white(#[trigger] s[i]) by {
            if i < k {
                assert(s[i] == front[i]);
            } else {
                assert(s[i] == back[i - k]);
            }
        }
        lemma_without_leading(s, s.len() as int);
        assert(trimmed(s) =~= middle);
    }
}

/// A text that white space neither begins nor ends is left as it is.
pub proof fn law_a_bare_text_is_left_as_it_is(s: Seq<char>)
    requires
        s.len() > 0 ==> !white(s[0]) && !white(s.last()),
    ensures
        trimmed(s) == s,
        blank(s) == (s.len() == 0),
{
    let none = Seq::<char>::empty();
    law_only_the_white_space_around_goes(none, s, none);
    assert(none + s + none =~= s);
}

/// Blanks, tabs and line breaks are white space; what can be seen of ASCII is not. Beyond ASCII
/// the blanks and separators of Unicode are white space, and nothing else.
pub proof fn law_what_is_seen_is_not_white(c: char)
    ensures
        c == ' ' || c == '\t' || c == '\n' || c == '\r' ==> white(c),
        '!' <= c <= '~' ==> !white(c),
        white(c) && c as int > 0x7f ==> set![
            0x85int,
            0xa0,
            0x1680,
            0x2000,
            0x2001,
            0x2002,
            0x2003,
            0x2004,
            0x2005,
            0x2006,
            0x2007,
            0x2008,
            0x2009,
            0x200a,
            0x2028,
            0x2029,
            0x202f,
            0x205f,
            0x3000,
        ].contains(c as int),
        set![0x85int, 0xa0, 0x1680, 0x2028, 0x2029, 0x202f, 0x205f, 0x3000].contains(c as int)
            || 0x2000 <= c as int <= 0x200a ==> white(c),
{
}

/// What is put together of two lists is what is put together of each, with the same between.
pub proof fn law_joining_loses_nothing(a: Seq<Seq<char>>, b: Seq<Seq<char>>, sep: Seq<char>)
    ensures
        a.len() > 0 && b.len() > 0 ==> joined(a + b, sep) == joined(a, sep) + sep + joined(b, sep),
        a.len() == 1 ==> joined(a, sep) == a[0],
        a.len() == 0 ==> joined(a, sep).len() == 0,
    decreases b.len(),
{
    if a.len() > 0 && b.len() > 0 {
        let all = a + b;
        assert(all.last() == b.last());
        assert(all.drop_last() =~= a + b.drop_last());
        if b.len() == 1 {
            assert(a + b.drop_last() =~= a);
        } else {
            law_joining_loses_nothing(a, b.drop_last(), sep);
            assert(joined(all, sep) =~= joined(a, sep) + sep + joined(b, sep));
        }
    }
}

/// A text without white space is one word.
pub proof fn law_a_word_is_itself(w: Seq<char>)
    requires
        w.len() > 0,
        forall|i: int| 0 <= i < w.len() ==> !white(#[trigger] w[i]),
    ensures
        words(w) == seq![w],
        word_len(w) == w.len(),
{
    assert(!white(w[0]));
    lemma_word_len_is(w, w.len() as int);
    assert(w.take(w.len() as int) =~= w);
    assert(w.skip(w.len() as int).len() == 0);
    assert(words(w.skip(w.len() as int)) =~= Seq::<Seq<char>>::empty());
    assert(words(w) =~= seq![w]);
}

/// White space parts the words before it from those behind it, and no word is lost or changed.
pub proof fn law_white_space_parts_words(a: Seq<char>, c: char, b: Seq<char>)
    requires
        white(c),
    ensures
        words(a + seq![c] + b) == words(a) + words(b),
    decreases a.len(),
{
    let s = a + seq![c] + b;
    if a.len() == 0 {
        assert(s[0] == c);
        assert(s.drop_first() =~= b);
        assert(without_leading(s) == without_leading(b));
        assert(words(s) == words(b));
        assert(words(a) + words(b) =~= words(b));
    } else if white(a[0]) {
        let rest = a.drop_first();
        assert(s[0] == a[0]);
        assert(s.drop_first() =~= rest + seq![c] + b);
        law_white_space_parts_words(rest, c, b);
        assert(without_leading(s) == without_leading(s.drop_first()));
        assert(without_leading(a) == without_leading(rest));
        assert(words(s) == words(s.drop_first()));
        assert(words(a) == words(rest));
    } else {
        lemma_word_len(a);
        let n = word_len(a) as int;
        assert(s[0] == a[0]);
        assert forall|i: int| 0 <= i < n implies !white(#[trigger] s[i]) by {
            assert(s[i] == a[i]);
        }
        assert(white(s[n]));
        lemma_word_len_is(s, n);
        assert(s.take(n) =~= a.take(n));
        assert(s.skip(n) =~= a.skip(n) + seq![c] + b);
        assert(n > 0);
        law_white_space_parts_words(a.skip(n), c, b);
        assert(words(s) =~= words(a) + words(b));
    }
}

/// What stands in the middle of a text occurs in it, and what stands at its front begins it.
pub proof fn law_parts_occur(a: Seq<char>, p: Seq<char>, b: Seq<char>)
    ensures
        occurs(a + p + b, p),
        begins(p + b, p),
{
    let s = a + p + b;
    assert(s.subrange(a.len() as int, (a.len() + p.len()) as int) =~= p);
    assert(occurs_at(s, p, a.len() as int));
    assert((p + b).take(p.len() as int) =~= p);
}

/// Every part of a text that is put together occurs in it, whole.
pub proof fn law_every_part_occurs(parts: Seq<Seq<char>>, sep: Seq<char>, i: int)
    requires
        0 <= i < parts.len(),
    ensures
        occurs(joined(parts, sep), parts[i]),
{
    let none = Seq::<char>::empty();
    let before = parts.take(i);
    let one = seq![parts[i]];
    let behind = parts.skip(i + 1);
    let p = parts[i];
    law_joining_loses_nothing(before, one, sep);
    law_joining_loses_nothing(one, behind, sep);
    law_joining_loses_nothing(before + one, behind, sep);
    assert(before + one + behind =~= parts);
    let front = if before.len() > 0 { joined(before, sep) + sep } else { none };
    let back = if behind.len() > 0 { sep + joined(behind, sep) } else { none };
    assert(joined(one, sep) == p);
    if before.len() == 0 {
        assert(before + one =~= one);
    }
    if behind.len() == 0 {
        assert(before + one =~= parts);
    }
    assert(joined(before + one, sep) =~= front + p);
    assert(joined(parts, sep) =~= front + p + back);
    law_parts_occur(front, p, back);
}

/// What a text ends in again and again is taken off, and nothing more.
pub proof fn law_only_what_repeats_at_the_end_goes(s: Seq<char>, p: Seq<char>)
    requires
        p.len() > 0,
    ensures
        without_suffixes(s + p, p) == without_suffixes(s, p),
        !ends(s, p) ==> without_suffixes(s, p) == s,
{
    let t = s + p;
    assert(t.skip(t.len() - p.len()) =~= p);
    assert(t.take(t.len() - p.len()) =~= s);
}

} // verus!
