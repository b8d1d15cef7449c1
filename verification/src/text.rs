//! Text handling: the string operations that the rest of the library reads its inputs with, each
//! stated over sequences of characters.
use vstd::prelude::*;
use vstd::string::StringExecFns;

verus! {

/// Appends one character: `String::push` leaves the text extended by that character at its end.
pub assume_specification[ String::push ](s: &mut String, c: char)
    ensures
        final(s)@ == old(s)@.push(c),
;

/// A sequence of characters, the model of every text in this library.
pub type Text = Seq<char>;

/// A printable character that stands for itself between quotation marks.
pub open spec fn is_plain(c: char) -> bool {
    ' ' <= c <= '~' && c != '"' && c != '\\'
}

/// A text of such characters.
pub open spec fn plain(s: Text) -> bool {
    forall|i: int| 0 <= i < s.len() ==> is_plain(#[trigger] s[i])
}

/// Whether the first characters of a text are plain.
pub open spec fn plain_up_to(s: Text, n: nat) -> bool
    decreases n,
{
    n == 0 || (is_plain(s[n - 1]) && plain_up_to(s, (n - 1) as nat))
}

pub proof fn lemma_plain(s: Text, n: nat)
    requires
        plain_up_to(s, n),
    ensures
        forall|i: int| 0 <= i < n ==> is_plain(#[trigger] s[i]),
    decreases n,
{
    if n > 0 {
        lemma_plain(s, (n - 1) as nat);
    }
}

/// A text between quotation marks.
pub open spec fn quoted(s: Text) -> Text {
    "\""@ + s + "\""@
}

/// Puts a text between quotation marks.
pub fn quote(s: &str) -> (r: String)
    ensures
        r@ == quoted(s@),
{
    "\"".to_owned().concat(s).concat("\"")
}

/// The texts of a list of owned strings.
pub open spec fn texts(v: Seq<String>) -> Seq<Text> {
    v.map_values(|s: String| s@)
}

/// The texts of a list of borrowed strings.
pub open spec fn strs(v: Seq<&str>) -> Seq<Text> {
    v.map_values(|s: &str| s@)
}

/// The text of an optional string.
pub open spec fn opt_text(o: Option<String>) -> Option<Text> {
    match o {
        Some(s) => Some(s@),
        None => None,
    }
}

/// The Unicode `White_Space` property.
pub open spec fn is_white(c: char) -> bool {
    ||| 0x09 <= c as u32 <= 0x0d
    ||| c as u32 == 0x20
    ||| c as u32 == 0x85
    ||| c as u32 == 0xa0
    ||| c as u32 == 0x1680
    ||| 0x2000 <= c as u32 <= 0x200a
    ||| c as u32 == 0x2028
    ||| c as u32 == 0x2029
    ||| c as u32 == 0x202f
    ||| c as u32 == 0x205f
    ||| c as u32 == 0x3000
}

pub open spec fn is_digit(c: char) -> bool {
    '0' <= c <= '9'
}

pub open spec fn is_alnum(c: char) -> bool {
    ||| is_digit(c)
    ||| 'a' <= c <= 'z'
    ||| 'A' <= c <= 'Z'
}

pub open spec fn is_hex_digit(c: char) -> bool {
    ||| is_digit(c)
    ||| 'a' <= c <= 'f'
    ||| 'A' <= c <= 'F'
}

/// Whether `c` is white space.
pub fn white(c: char) -> (r: bool)
    ensures
        r == is_white(c),
{
    let n: u32 = c as u32;
    (0x09 <= n && n <= 0x0d) || n == 0x20 || n == 0x85 || n == 0xa0 || n == 0x1680 || (0x2000 <= n
        && n <= 0x200a) || n == 0x2028 || n == 0x2029 || n == 0x202f || n == 0x205f || n == 0x3000
}

pub fn digit(c: char) -> (r: bool)
    ensures
        r == is_digit(c),
{
    '0' <= c && c <= '9'
}

pub fn alnum(c: char) -> (r: bool)
    ensures
        r == is_alnum(c),
{
    digit(c) || ('a' <= c && c <= 'z') || ('A' <= c && c <= 'Z')
}

pub fn hex_digit(c: char) -> (r: bool)
    ensures
        r == is_hex_digit(c),
{
    digit(c) || ('a' <= c && c <= 'f') || ('A' <= c && c <= 'F')
}

/// The characters of a text, in order.
pub fn chars_of(s: &str) -> (v: Vec<char>)
    ensures
        v@ == s@,
{
    let mut v: Vec<char> = Vec::new();
    for c in it: s.chars()
        invariant
            v@ == s@.take(it.index() as int),
            it.seq() == s@,
    {
        v.push(c);
        assert(s@.take(it.index() + 1) =~= s@.take(it.index() as int).push(c));
    }
    assert(s@.take(s@.len() as int) =~= s@);
    v
}

/// The text of the characters from `from` up to `to`.
pub fn slice(v: &Vec<char>, from: usize, to: usize) -> (s: String)
    requires
        from <= to <= v@.len(),
    ensures
        s@ == v@.subrange(from as int, to as int),
{
    let mut s = String::new();
    let mut i: usize = from;
    while i < to
        invariant
            from <= i <= to <= v@.len(),
            s@ == v@.subrange(from as int, i as int),
        decreases to - i,
    {
        s.push(v[i]);
        i += 1;
        assert(v@.subrange(from as int, i as int) =~= v@.subrange(from as int, i - 1).push(
            v@[i - 1],
        ));
    }
    s
}

/// Whether two texts are the same.
pub fn same(a: &str, b: &str) -> (r: bool)
    ensures
        r == (a@ == b@),
{
    let x = chars_of(a);
    let y = chars_of(b);
    if x.len() != y.len() {
        return false;
    }
    let mut i: usize = 0;
    while i < x.len()
        invariant
            i <= x@.len(),
            x@.len() == y@.len(),
            forall|k: int| 0 <= k < i ==> x@[k] == y@[k],
            x@ == a@,
            y@ == b@,
        decreases x@.len() - i,
    {
        if x[i] != y[i] {
            assert(a@[i as int] != b@[i as int]);
            return false;
        }
        i += 1;
    }
    assert(a@ =~= b@);
    true
}

/// The sets of characters that trimming strips.
#[derive(Clone, Copy, PartialEq, Eq, Structural)]
pub enum Class {
    White,
    Quote,
    Bracket,
    ColonOrSpace,
}

pub open spec fn in_class(k: Class, c: char) -> bool {
    match k {
        Class::White => is_white(c),
        Class::Quote => c == '"',
        Class::Bracket => c == '[' || c == ']',
        Class::ColonOrSpace => c == ':' || c == ' ',
    }
}

fn belongs(k: Class, c: char) -> (r: bool)
    ensures
        r == in_class(k, c),
{
    match k {
        Class::White => white(c),
        Class::Quote => c == '"',
        Class::Bracket => c == '[' || c == ']',
        Class::ColonOrSpace => c == ':' || c == ' ',
    }
}

/// `s` without its longest prefix of characters of class `k`.
pub open spec fn strip_start(k: Class, s: Text) -> Text
    decreases s.len(),
{
    if s.len() > 0 && in_class(k, s[0]) {
        strip_start(k, s.skip(1))
    } else {
        s
    }
}

/// `s` without its longest suffix of characters of class `k`.
pub open spec fn strip_end(k: Class, s: Text) -> Text
    decreases s.len(),
{
    if s.len() > 0 && in_class(k, s.last()) {
        strip_end(k, s.drop_last())
    } else {
        s
    }
}

/// `s` without the white space at its two ends.
pub open spec fn trimmed(s: Text) -> Text {
    strip_end(Class::White, strip_start(Class::White, s))
}

fn start_of(k: Class, v: &Vec<char>) -> (a: usize)
    ensures
        a <= v@.len(),
        v@.skip(a as int) == strip_start(k, v@),
{
    let mut a: usize = 0;
    assert(v@.skip(0) =~= v@);
    while a < v.len() && belongs(k, v[a])
        invariant
            a <= v@.len(),
            strip_start(k, v@.skip(a as int)) == strip_start(k, v@),
        decreases v@.len() - a,
    {
        assert(v@.skip(a as int).skip(1) =~= v@.skip(a + 1));
        a += 1;
    }
    a
}

fn end_of(k: Class, v: &Vec<char>, a: usize) -> (b: usize)
    requires
        a <= v@.len(),
    ensures
        a <= b <= v@.len(),
        v@.subrange(a as int, b as int) == strip_end(k, v@.skip(a as int)),
{
    let mut b: usize = v.len();
    assert(v@.subrange(a as int, b as int) =~= v@.skip(a as int));
    while b > a && belongs(k, v[b - 1])
        invariant
            a <= b <= v@.len(),
            strip_end(k, v@.subrange(a as int, b as int)) == strip_end(k, v@.skip(a as int)),
        decreases b,
    {
        assert(v@.subrange(a as int, b as int).drop_last() =~= v@.subrange(a as int, b - 1));
        b -= 1;
    }
    b
}

/// Strips the characters of class `k` off both ends.
pub fn trim_of(k: Class, s: &str) -> (r: String)
    ensures
        r@ == strip_end(k, strip_start(k, s@)),
{
    let v = chars_of(s);
    let a = start_of(k, &v);
    let b = end_of(k, &v, a);
    slice(&v, a, b)
}

/// Strips the characters of class `k` off the front.
pub fn trim_start_of(k: Class, s: &str) -> (r: String)
    ensures
        r@ == strip_start(k, s@),
{
    let v = chars_of(s);
    let a = start_of(k, &v);
    let n: usize = v.len();
    assert(v@.subrange(a as int, n as int) =~= v@.skip(a as int));
    slice(&v, a, n)
}

/// Strips the white space off both ends.
pub fn trim(s: &str) -> (r: String)
    ensures
        r@ == trimmed(s@),
{
    trim_of(Class::White, s)
}

/// The length of the longest prefix without white space.
pub open spec fn word_len(s: Text) -> nat
    decreases s.len(),
{
    if s.len() == 0 || is_white(s[0]) {
        0
    } else {
        1 + word_len(s.skip(1))
    }
}

pub proof fn lemma_word_len(s: Text)
    ensures
        word_len(s) <= s.len(),
        s.len() > 0 && !is_white(s[0]) ==> word_len(s) > 0,
    decreases s.len(),
{
    if s.len() > 0 && !is_white(s[0]) {
        lemma_word_len(s.skip(1));
    }
}

pub proof fn lemma_strip_start(k: Class, s: Text)
    ensures
        strip_start(k, s).len() <= s.len(),
        strip_start(k, s).len() > 0 ==> !in_class(k, strip_start(k, s)[0]),
    decreases s.len(),
{
    if s.len() > 0 && in_class(k, s[0]) {
        lemma_strip_start(k, s.skip(1));
    }
}

/// The maximal runs of characters that are not white space, in order.
pub open spec fn words(s: Text) -> Seq<Text>
    decreases s.len(),
    via words_decreases
{
    let t = strip_start(Class::White, s);
    if t.len() == 0 {
        seq![]
    } else {
        seq![t.take(word_len(t) as int)] + words(t.skip(word_len(t) as int))
    }
}

#[via_fn]
proof fn words_decreases(s: Text) {
    let t = strip_start(Class::White, s);
    lemma_strip_start(Class::White, s);
    lemma_word_len(t);
}

fn word_end(v: &Vec<char>, from: usize) -> (to: usize)
    requires
        from <= v@.len(),
    ensures
        from <= to <= v@.len(),
        to - from == word_len(v@.skip(from as int)),
{
    let mut to: usize = from;
    while to < v.len() && !white(v[to])
        invariant
            from <= to <= v@.len(),
            to - from + word_len(v@.skip(to as int)) == word_len(v@.skip(from as int)),
        decreases v@.len() - to,
    {
        assert(v@.skip(to as int).skip(1) =~= v@.skip(to + 1));
        to += 1;
    }
    to
}

/// Splits a text at its white space.
pub fn split_words(s: &str) -> (r: Vec<String>)
    ensures
        texts(r@) == words(s@),
{
    let v = chars_of(s);
    let mut r: Vec<String> = Vec::new();
    let mut i: usize = 0;
    assert(v@.skip(0) =~= v@);
    assert(texts(r@) + words(v@) =~= words(v@));
    while i < v.len()
        invariant
            i <= v@.len(),
            texts(r@) + words(v@.skip(i as int)) == words(v@),
        decreases v@.len() - i,
    {
        if white(v[i]) {
            assert(v@.skip(i as int).skip(1) =~= v@.skip(i + 1));
            i += 1;
        } else {
            let e = word_end(&v, i);
            let w = slice(&v, i, e);
            proof {
                let t = v@.skip(i as int);
                lemma_word_len(t);
                assert(strip_start(Class::White, t) == t);
                assert(t.take(e - i) =~= v@.subrange(i as int, e as int));
                assert(t.skip(e - i) =~= v@.skip(e as int));
                assert(texts(r@.push(w)) =~= texts(r@).push(w@));
                assert(texts(r@).push(w@) + words(v@.skip(e as int)) =~= texts(r@) + (seq![w@]
                    + words(v@.skip(e as int))));
            }
            r.push(w);
            i = e;
        }
    }
    assert(words(v@.skip(i as int)) =~= seq![]);
    assert(texts(r@) + seq![] =~= texts(r@));
    r
}

/// The position of the first `c`, or the length of the text where there is none.
pub open spec fn index_of(s: Text, c: char) -> nat
    decreases s.len(),
{
    if s.len() == 0 || s[0] == c {
        0
    } else {
        1 + index_of(s.skip(1), c)
    }
}

pub proof fn lemma_index_of(s: Text, c: char)
    ensures
        index_of(s, c) <= s.len(),
        index_of(s, c) < s.len() ==> s[index_of(s, c) as int] == c,
        forall|i: int| 0 <= i < index_of(s, c) ==> s[i] != c,
    decreases s.len(),
{
    if s.len() > 0 && s[0] != c {
        lemma_index_of(s.skip(1), c);
        assert forall|i: int| 0 <= i < index_of(s, c) implies s[i] != c by {
            if i > 0 {
                assert(s[i] == s.skip(1)[i - 1]);
            }
        }
    }
}

fn seek(v: &Vec<char>, from: usize, c: char) -> (to: usize)
    requires
        from <= v@.len(),
    ensures
        from <= to <= v@.len(),
        to - from == index_of(v@.skip(from as int), c),
{
    let mut to: usize = from;
    while to < v.len() && v[to] != c
        invariant
            from <= to <= v@.len(),
            to - from + index_of(v@.skip(to as int), c) == index_of(v@.skip(from as int), c),
        decreases v@.len() - to,
    {
        assert(v@.skip(to as int).skip(1) =~= v@.skip(to + 1));
        to += 1;
    }
    to
}

/// The pieces between the occurrences of `c`; always at least one.
pub open spec fn pieces(s: Text, c: char) -> Seq<Text>
    decreases s.len(),
    via pieces_decreases
{
    let k = index_of(s, c) as int;
    if k >= s.len() {
        seq![s]
    } else {
        seq![s.take(k)] + pieces(s.skip(k + 1), c)
    }
}

#[via_fn]
proof fn pieces_decreases(s: Text, c: char) {
    lemma_index_of(s, c);
}

/// Splits a text at every `c`.
pub fn split_char(s: &str, c: char) -> (r: Vec<String>)
    ensures
        texts(r@) == pieces(s@, c),
        r@.len() > 0,
{
    let v = chars_of(s);
    let n: usize = v.len();
    let mut r: Vec<String> = Vec::new();
    let mut i: usize = 0;
    assert(v@.skip(0) =~= v@);
    assert(texts(r@) + pieces(v@, c) =~= pieces(v@, c));
    loop
        invariant
            i <= n == v@.len(),
            v@ == s@,
            texts(r@) + pieces(v@.skip(i as int), c) == pieces(v@, c),
        decreases n - i,
    {
        let k = seek(&v, i, c);
        let w = slice(&v, i, k);
        let ghost t = v@.skip(i as int);
        let ghost before = r@;
        assert(t.take(k - i) =~= v@.subrange(i as int, k as int));
        r.push(w);
        assert(texts(r@) =~= texts(before).push(w@));
        if k >= n {
            proof {
                lemma_index_of(t, c);
                assert(t.take(k - i) =~= t);
                assert(texts(r@) =~= texts(before) + seq![t]);
            }
            return r;
        }
        assert(t.skip(k - i + 1) =~= v@.skip(k + 1));
        assert(texts(r@) + pieces(v@.skip(k + 1), c) =~= texts(before) + (seq![w@] + pieces(
            v@.skip(k + 1),
            c,
        )));
        i = k + 1;
    }
}

/// A line with the carriage return before its line feed taken off.
pub open spec fn without_cr(s: Text) -> Text {
    if s.len() > 0 && s.last() == '\r' {
        s.drop_last()
    } else {
        s
    }
}

/// The lines of a text: each ends at a line feed, or at a carriage return and a line feed; the
/// last one may lack its end.
pub open spec fn line_texts(s: Text) -> Seq<Text>
    decreases s.len(),
    via line_texts_decreases
{
    let k = index_of(s, '\n') as int;
    if s.len() == 0 {
        seq![]
    } else if k >= s.len() {
        seq![s]
    } else {
        seq![without_cr(s.take(k))] + line_texts(s.skip(k + 1))
    }
}

#[via_fn]
proof fn line_texts_decreases(s: Text) {
    lemma_index_of(s, '\n');
}

/// Splits a text into its lines.
pub fn lines(s: &str) -> (r: Vec<String>)
    ensures
        texts(r@) == line_texts(s@),
{
    let v = chars_of(s);
    let n: usize = v.len();
    let mut r: Vec<String> = Vec::new();
    let mut i: usize = 0;
    assert(v@.skip(0) =~= v@);
    assert(texts(r@) + line_texts(v@) =~= line_texts(v@));
    while i < n
        invariant
            i <= n == v@.len(),
            texts(r@) + line_texts(v@.skip(i as int)) == line_texts(v@),
        decreases n - i,
    {
        let k = seek(&v, i, '\n');
        let ghost t = v@.skip(i as int);
        let ghost before = r@;
        proof {
            lemma_index_of(t, '\n');
        }
        if k >= n {
            let w = slice(&v, i, n);
            assert(w@ =~= t);
            r.push(w);
            assert(texts(r@) =~= texts(before).push(t));
            assert(texts(before) + seq![t] =~= texts(r@));
            i = n;
            assert(line_texts(v@.skip(i as int)) =~= seq![]);
            assert(texts(r@) + seq![] =~= texts(r@));
        } else {
            let e = if k > i && v[k - 1] == '\r' {
                k - 1
            } else {
                k
            };
            let w = slice(&v, i, e);
            assert(w@ =~= without_cr(t.take(k - i)));
            r.push(w);
            assert(texts(r@) =~= texts(before).push(w@));
            assert(t.skip(k - i + 1) =~= v@.skip(k + 1));
            assert(texts(r@) + line_texts(v@.skip(k + 1)) =~= texts(before) + (seq![w@]
                + line_texts(v@.skip(k + 1))));
            i = k + 1;
        }
    }
    assert(line_texts(v@.skip(i as int)) =~= seq![]);
    assert(texts(r@) + seq![] =~= texts(r@));
    r
}

/// Whether `s` begins with `p`.
pub open spec fn begins(s: Text, p: Text) -> bool {
    p.len() <= s.len() && s.take(p.len() as int) == p
}

/// Whether `s` ends with `p`.
pub open spec fn finishes(s: Text, p: Text) -> bool {
    p.len() <= s.len() && s.skip(s.len() - p.len()) == p
}

/// Whether `p` stands in `s` at position `i`.
pub open spec fn occurs_at(s: Text, p: Text, i: int) -> bool {
    0 <= i && i + p.len() <= s.len() && s.subrange(i, i + p.len()) == p
}

/// Whether `p` stands anywhere in `s`.
pub open spec fn carries(s: Text, p: Text) -> bool {
    exists|i: int| occurs_at(s, p, i)
}

fn stands(v: &Vec<char>, p: &Vec<char>, at: usize) -> (r: bool)
    requires
        at <= v@.len(),
    ensures
        r == begins(v@.skip(at as int), p@),
        r == occurs_at(v@, p@, at as int),
{
    let m: usize = p.len();
    let n: usize = v.len();
    if m > n - at {
        return false;
    }
    let ghost t = v@.skip(at as int);
    assert(t.take(m as int) =~= v@.subrange(at as int, at + m));
    let mut i: usize = 0;
    while i < m
        invariant
            i <= m == p@.len(),
            at + m <= n == v@.len(),
            t == v@.skip(at as int),
            t.take(m as int) == v@.subrange(at as int, at + m),
            forall|k: int| 0 <= k < i ==> v@[at + k] == p@[k],
        decreases m - i,
    {
        if v[at + i] != p[i] {
            assert(t.take(m as int)[i as int] != p@[i as int]);
            return false;
        }
        i += 1;
    }
    assert(t.take(m as int) =~= p@);
    true
}

/// Whether `s` begins with `p`.
pub fn starts_with(s: &str, p: &str) -> (r: bool)
    ensures
        r == begins(s@, p@),
{
    let v = chars_of(s);
    let q = chars_of(p);
    assert(v@.skip(0) =~= v@);
    stands(&v, &q, 0)
}

/// Whether `s` ends with `p`.
pub fn ends_with(s: &str, p: &str) -> (r: bool)
    ensures
        r == finishes(s@, p@),
{
    let v = chars_of(s);
    let q = chars_of(p);
    if q.len() > v.len() {
        return false;
    }
    let at: usize = v.len() - q.len();
    let r = stands(&v, &q, at);
    assert(v@.skip(at as int).take(q@.len() as int) =~= v@.skip(at as int));
    r
}

/// What follows the prefix `p`, where `s` begins with it.
pub open spec fn after_prefix(s: Text, p: Text) -> Option<Text> {
    if begins(s, p) {
        Some(s.skip(p.len() as int))
    } else {
        None
    }
}

/// Takes the prefix `p` off, where there is one.
pub fn strip_prefix(s: &str, p: &str) -> (r: Option<String>)
    ensures
        opt_text(r) == after_prefix(s@, p@),
{
    let v = chars_of(s);
    let q = chars_of(p);
    assert(v@.skip(0) =~= v@);
    if stands(&v, &q, 0) {
        let n: usize = v.len();
        assert(v@.subrange(q@.len() as int, n as int) =~= v@.skip(q@.len() as int));
        Some(slice(&v, q.len(), n))
    } else {
        None
    }
}

/// The position of the first occurrence of `p`, or the length of the text where there is none.
pub open spec fn match_of(s: Text, p: Text) -> nat
    decreases s.len(),
{
    if s.len() == 0 || begins(s, p) {
        0
    } else {
        1 + match_of(s.skip(1), p)
    }
}

pub proof fn lemma_match_of(s: Text, p: Text)
    ensures
        match_of(s, p) <= s.len(),
        match_of(s, p) < s.len() ==> occurs_at(s, p, match_of(s, p) as int),
        forall|i: int| 0 <= i < match_of(s, p) ==> !occurs_at(s, p, i),
        p.len() > 0 ==> (carries(s, p) <==> match_of(s, p) < s.len()),
    decreases s.len(),
{
    if s.len() > 0 && !begins(s, p) {
        lemma_match_of(s.skip(1), p);
        let k = match_of(s.skip(1), p) as int;
        if k < s.skip(1).len() {
            assert(s.subrange(k + 1, k + 1 + p.len()) =~= s.skip(1).subrange(k, k + p.len()));
        }
        assert forall|i: int| 0 <= i < match_of(s, p) implies !occurs_at(s, p, i) by {
            if occurs_at(s, p, i) {
                if i == 0 {
                    assert(s.take(p.len() as int) =~= s.subrange(0, p.len() as int));
                } else {
                    assert(s.subrange(i, i + p.len()) =~= s.skip(1).subrange(
                        i - 1,
                        i - 1 + p.len(),
                    ));
                    assert(occurs_at(s.skip(1), p, i - 1));
                }
            }
        }
    } else if s.len() > 0 {
        assert(s.take(p.len() as int) =~= s.subrange(0, p.len() as int));
        assert(occurs_at(s, p, 0));
    }
    if p.len() > 0 && carries(s, p) {
        let i = choose|i: int| occurs_at(s, p, i);
        assert(occurs_at(s, p, i));
        assert(i < s.len());
    }
    if match_of(s, p) < s.len() {
        assert(occurs_at(s, p, match_of(s, p) as int));
    }
}

fn seek_text(v: &Vec<char>, from: usize, p: &Vec<char>) -> (to: usize)
    requires
        from <= v@.len(),
    ensures
        from <= to <= v@.len(),
        to - from == match_of(v@.skip(from as int), p@),
{
    let mut to: usize = from;
    while to < v.len() && !stands(v, p, to)
        invariant
            from <= to <= v@.len(),
            to - from + match_of(v@.skip(to as int), p@) == match_of(v@.skip(from as int), p@),
        decreases v@.len() - to,
    {
        assert(v@.skip(to as int).skip(1) =~= v@.skip(to + 1));
        to += 1;
    }
    to
}

/// Whether the non-empty text `p` stands in `s`.
pub fn contains(s: &str, p: &str) -> (r: bool)
    requires
        p@.len() > 0,
    ensures
        r == carries(s@, p@),
{
    let v = chars_of(s);
    let q = chars_of(p);
    assert(v@.skip(0) =~= v@);
    proof {
        lemma_match_of(v@, q@);
    }
    seek_text(&v, 0, &q) < v.len()
}

/// The position of the last occurrence of `p`, or -1 where there is none.
pub open spec fn last_match(s: Text, p: Text) -> int
    decreases s.len(),
{
    if finishes(s, p) {
        s.len() - p.len()
    } else if s.len() == 0 {
        -1
    } else {
        last_match(s.drop_last(), p)
    }
}

/// What follows the last occurrence of `p`.
pub open spec fn rest_after_last(s: Text, p: Text) -> Option<Text> {
    if last_match(s, p) < 0 {
        None
    } else {
        Some(s.skip(last_match(s, p) + p.len()))
    }
}

/// Finds what follows the last occurrence of `p`.
pub fn after_last(s: &str, p: &str) -> (r: Option<String>)
    ensures
        opt_text(r) == rest_after_last(s@, p@),
{
    let v = chars_of(s);
    let q = chars_of(p);
    let n: usize = v.len();
    let m: usize = q.len();
    let mut e: usize = n;
    assert(v@.take(n as int) =~= v@);
    loop
        invariant
            v@ == s@,
            q@ == p@,
            e <= n == v@.len(),
            m == q@.len(),
            last_match(v@.take(e as int), q@) == last_match(v@, q@),
        decreases e,
    {
        let ghost t = v@.take(e as int);
        if m <= e {
            assert(t.skip(e - m) =~= v@.subrange(e - m, e as int));
            if stands(&v, &q, e - m) {
                assert(last_match(t, q@) == e - m);
                assert(v@.subrange(e as int, n as int) =~= s@.skip(e as int));
                return Some(slice(&v, e, n));
            }
            assert(!finishes(t, q@)) by {
                if finishes(t, q@) {
                    assert(v@.subrange(e - m, e - m + m) == q@);
                }
            }
        }
        if e == 0 {
            assert(last_match(t, q@) == -1);
            return None;
        }
        assert(t.drop_last() =~= v@.take(e - 1));
        e -= 1;
    }
}

/// The pieces between the occurrences of the non-empty text `p`, taken from the left; always at
/// least one.
pub open spec fn text_pieces(s: Text, p: Text) -> Seq<Text>
    decreases s.len(),
    via text_pieces_decreases
{
    let k = match_of(s, p) as int;
    if p.len() == 0 || k >= s.len() {
        seq![s]
    } else {
        seq![s.take(k)] + text_pieces(s.skip(k + p.len()), p)
    }
}

#[via_fn]
proof fn text_pieces_decreases(s: Text, p: Text) {
    lemma_match_of(s, p);
}

/// Splits a text at every occurrence of the non-empty text `p`.
pub fn split_text(s: &str, p: &str) -> (r: Vec<String>)
    requires
        p@.len() > 0,
    ensures
        texts(r@) == text_pieces(s@, p@),
        r@.len() > 0,
{
    let v = chars_of(s);
    let q = chars_of(p);
    let n: usize = v.len();
    let mut r: Vec<String> = Vec::new();
    let mut i: usize = 0;
    assert(v@.skip(0) =~= v@);
    assert(texts(r@) + text_pieces(v@, q@) =~= text_pieces(v@, q@));
    loop
        invariant
            i <= n == v@.len(),
            v@ == s@,
            q@ == p@,
            q@.len() > 0,
            texts(r@) + text_pieces(v@.skip(i as int), q@) == text_pieces(v@, q@),
        decreases n - i,
    {
        let k = seek_text(&v, i, &q);
        let w = slice(&v, i, k);
        let ghost t = v@.skip(i as int);
        let ghost before = r@;
        proof {
            lemma_match_of(t, q@);
        }
        assert(t.take(k - i) =~= v@.subrange(i as int, k as int));
        r.push(w);
        assert(texts(r@) =~= texts(before).push(w@));
        if k >= n {
            assert(t.take(k - i) =~= t);
            assert(texts(r@) =~= texts(before) + seq![t]);
            return r;
        }
        let m: usize = q.len();
        assert(t.skip(k - i + m) =~= v@.skip(k + m));
        assert(texts(r@) + text_pieces(v@.skip(k + m), q@) =~= texts(before) + (seq![w@]
            + text_pieces(v@.skip(k + m), q@)));
        i = k + m;
    }
}

/// The texts one after the other, with `sep` between them.
pub open spec fn joined(v: Seq<Text>, sep: Text) -> Text
    decreases v.len(),
{
    if v.len() == 0 {
        seq![]
    } else if v.len() == 1 {
        v[0]
    } else {
        joined(v.drop_last(), sep) + sep + v.last()
    }
}

/// Joins the strings, with `sep` between them.
pub fn join(v: &[String], sep: &str) -> (r: String)
    ensures
        r@ == joined(texts(v@), sep@),
{
    let mut r = String::new();
    let mut i: usize = 0;
    let ghost all = texts(v@);
    while i < v.len()
        invariant
            i <= v@.len(),
            all == texts(v@),
            r@ == joined(all.take(i as int), sep@),
        decreases v@.len() - i,
    {
        assert(all.take(i + 1).drop_last() =~= all.take(i as int));
        assert(all.take(i + 1).last() == v@[i as int]@);
        if i > 0 {
            r.append(sep);
            r.append(v[i].as_str());
        } else {
            r.append(v[i].as_str());
            assert(r@ =~= v@[0]@);
        }
        i += 1;
    }
    assert(all.take(v@.len() as int) =~= all);
    r
}

/// `s` with every occurrence of `from` replaced by `to`.
pub open spec fn replaced(s: Text, from: Text, to: Text) -> Text {
    joined(text_pieces(s, from), to)
}

/// Replaces every occurrence of the non-empty text `from`.
pub fn replace(s: &str, from: &str, to: &str) -> (r: String)
    requires
        from@.len() > 0,
    ensures
        r@ == replaced(s@, from@, to@),
{
    let parts = split_text(s, from);
    join(parts.as_slice(), to)
}

/// The position of the last `c`, or -1 where there is none.
pub open spec fn last_index_of(s: Text, c: char) -> int
    decreases s.len(),
{
    if s.len() == 0 {
        -1
    } else if s.last() == c {
        s.len() - 1
    } else {
        last_index_of(s.drop_last(), c)
    }
}

/// The two sides of the first `c`.
pub open spec fn parted(s: Text, c: char) -> Option<(Text, Text)> {
    let k = index_of(s, c) as int;
    if k < s.len() {
        Some((s.take(k), s.skip(k + 1)))
    } else {
        None
    }
}

/// The two sides of the last `c`.
pub open spec fn parted_last(s: Text, c: char) -> Option<(Text, Text)> {
    let k = last_index_of(s, c);
    if k >= 0 {
        Some((s.take(k), s.skip(k + 1)))
    } else {
        None
    }
}

pub open spec fn opt_pair(o: Option<(String, String)>) -> Option<(Text, Text)> {
    match o {
        Some(p) => Some((p.0@, p.1@)),
        None => None,
    }
}

/// Splits a text at its first `c`.
pub fn split_once(s: &str, c: char) -> (r: Option<(String, String)>)
    ensures
        opt_pair(r) == parted(s@, c),
{
    let v = chars_of(s);
    let n: usize = v.len();
    assert(v@.skip(0) =~= v@);
    let k = seek(&v, 0, c);
    if k < n {
        assert(v@.subrange(0, k as int) =~= v@.take(k as int));
        assert(v@.subrange(k + 1, n as int) =~= v@.skip(k + 1));
        Some((slice(&v, 0, k), slice(&v, k + 1, n)))
    } else {
        None
    }
}

/// Splits a text at its last `c`.
pub fn rsplit_once(s: &str, c: char) -> (r: Option<(String, String)>)
    ensures
        opt_pair(r) == parted_last(s@, c),
{
    let v = chars_of(s);
    let n: usize = v.len();
    let mut i: usize = n;
    assert(v@.take(n as int) =~= v@);
    while i > 0
        invariant
            i <= n == v@.len(),
            v@ == s@,
            last_index_of(v@.take(i as int), c) == last_index_of(v@, c),
        decreases i,
    {
        if v[i - 1] == c {
            let k: usize = i - 1;
            assert(last_index_of(v@.take(i as int), c) == k);
            assert(v@.subrange(0, k as int) =~= v@.take(k as int));
            assert(v@.subrange(k + 1, n as int) =~= v@.skip(k + 1));
            return Some((slice(&v, 0, k), slice(&v, k + 1, n)));
        }
        assert(v@.take(i as int).drop_last() =~= v@.take(i - 1));
        i -= 1;
    }
    assert(last_index_of(v@.take(0), c) == -1);
    None
}

/// A letter of `A` to `Z` in lower case; any other character as it is.
pub open spec fn lower_char(c: char) -> char {
    if 'A' <= c <= 'Z' {
        (c as u8 + 32) as char
    } else {
        c
    }
}

/// A text with its ASCII letters in lower case.
pub open spec fn lowered(s: Text) -> Text {
    s.map_values(|c: char| lower_char(c))
}

/// Puts the ASCII letters of a text in lower case.
pub fn to_lower(s: &str) -> (r: String)
    ensures
        r@ == lowered(s@),
{
    let v = chars_of(s);
    let mut r = String::new();
    let mut i: usize = 0;
    while i < v.len()
        invariant
            i <= v@.len(),
            r@ == lowered(v@.take(i as int)),
        decreases v@.len() - i,
    {
        let c: char = v[i];
        let d: char = if 'A' <= c && c <= 'Z' {
            ((c as u8) + 32) as char
        } else {
            c
        };
        r.push(d);
        assert(lowered(v@.take(i + 1)) =~= lowered(v@.take(i as int)).push(d));
        i += 1;
    }
    assert(v@.take(v@.len() as int) =~= v@);
    r
}

/// The order of texts, by their characters from the left: whether `a` stands before `b`.
pub open spec fn precedes(a: Text, b: Text) -> bool
    decreases a.len(),
{
    if b.len() == 0 {
        false
    } else if a.len() == 0 {
        true
    } else if a[0] != b[0] {
        a[0] < b[0]
    } else {
        precedes(a.skip(1), b.skip(1))
    }
}

/// Whether `a` stands before `b`.
pub fn before(a: &str, b: &str) -> (r: bool)
    ensures
        r == precedes(a@, b@),
{
    let x = chars_of(a);
    let y = chars_of(b);
    let mut i: usize = 0;
    assert(x@.skip(0) =~= x@);
    assert(y@.skip(0) =~= y@);
    while i < x.len() && i < y.len() && x[i] == y[i]
        invariant
            i <= x@.len(),
            i <= y@.len(),
            precedes(x@.skip(i as int), y@.skip(i as int)) == precedes(x@, y@),
        decreases x@.len() - i,
    {
        assert(x@.skip(i as int).skip(1) =~= x@.skip(i + 1));
        assert(y@.skip(i as int).skip(1) =~= y@.skip(i + 1));
        i += 1;
    }
    if i >= y.len() {
        false
    } else if i >= x.len() {
        true
    } else {
        x[i] < y[i]
    }
}

/// The order of texts is strict and total: of two texts one stands before the other, or they are
/// the same, and never more than one of the three.
pub proof fn lemma_precedes_total(a: Text, b: Text)
    ensures
        precedes(a, b) ==> !precedes(b, a) && a != b,
        !precedes(a, b) && !precedes(b, a) ==> a == b,
    decreases a.len(),
{
    if a.len() > 0 && b.len() > 0 && a[0] == b[0] {
        lemma_precedes_total(a.skip(1), b.skip(1));
        if a.skip(1) == b.skip(1) {
            assert(a =~= seq![a[0]] + a.skip(1));
            assert(b =~= seq![b[0]] + b.skip(1));
        }
    } else if a.len() == 0 && b.len() == 0 {
        assert(a =~= b);
    }
}

pub proof fn lemma_precedes_transitive(a: Text, b: Text, c: Text)
    requires
        precedes(a, b),
        precedes(b, c),
    ensures
        precedes(a, c),
    decreases a.len(),
{
    if a.len() > 0 && a[0] == b[0] && b[0] == c[0] {
        lemma_precedes_transitive(a.skip(1), b.skip(1), c.skip(1));
    }
}

/// What follows `p` in the first of the texts that begins with it.
pub open spec fn first_after(v: Seq<Text>, p: Text) -> Option<Text>
    decreases v.len(),
{
    if v.len() == 0 {
        None
    } else if begins(v[0], p) {
        after_prefix(v[0], p)
    } else {
        first_after(v.skip(1), p)
    }
}

/// Finds what follows `p` in the first line that begins with it.
pub fn find_after(s: &str, p: &str) -> (r: Option<String>)
    ensures
        opt_text(r) == first_after(line_texts(s@), p@),
{
    let all = lines(s);
    let ghost t = line_texts(s@);
    let n: usize = all.len();
    let mut i: usize = 0;
    assert(t.skip(0) =~= t);
    while i < n
        invariant
            i <= n == all@.len(),
            t == texts(all@),
            t == line_texts(s@),
            first_after(t.skip(i as int), p@) == first_after(t, p@),
        decreases n - i,
    {
        assert(t.skip(i as int)[0] == all@[i as int]@);
        let rest = strip_prefix(all[i].as_str(), p);
        if rest.is_some() {
            return rest;
        }
        assert(t.skip(i as int).skip(1) =~= t.skip(i + 1));
        i += 1;
    }
    None
}

/// How many of the texts are more than white space.
pub open spec fn inked(v: Seq<Text>) -> nat
    decreases v.len(),
{
    if v.len() == 0 {
        0
    } else if trimmed(v.last()).len() > 0 {
        inked(v.drop_last()) + 1
    } else {
        inked(v.drop_last())
    }
}

/// Counts the lines that are more than white space.
pub fn count_inked(s: &str) -> (n: usize)
    ensures
        n == inked(line_texts(s@)),
{
    let all = lines(s);
    let ghost t = line_texts(s@);
    let mut n: usize = 0;
    let mut i: usize = 0;
    assert(inked(t.take(0)) == 0);
    while i < all.len()
        invariant
            n <= i <= all@.len(),
            t == texts(all@),
            t == line_texts(s@),
            n == inked(t.take(i as int)),
        decreases all@.len() - i,
    {
        assert(t.take(i + 1).drop_last() =~= t.take(i as int));
        assert(t.take(i + 1).last() == all@[i as int]@);
        if !trim(all[i].as_str()).as_str().is_empty() {
            n += 1;
        }
        i += 1;
    }
    assert(t.take(all@.len() as int) =~= t);
    n
}

/// The word that follows the first occurrence of a word.
pub open spec fn word_after(w: Seq<Text>, mark: Text) -> Text
    decreases w.len(),
{
    if w.len() == 0 {
        seq![]
    } else if w[0] == mark {
        if w.len() > 1 {
            w[1]
        } else {
            seq![]
        }
    } else {
        word_after(w.skip(1), mark)
    }
}

/// The word that follows the first occurrence of `mark` in a line of words; nothing where there is
/// none.
pub fn following(line: &str, mark: &str) -> (r: String)
    ensures
        r@ == word_after(words(line@), mark@),
{
    let w = split_words(line);
    let ghost all = texts(w@);
    let n: usize = w.len();
    let mut i: usize = 0;
    assert(all.skip(0) =~= all);
    while i < n
        invariant
            i <= n == w@.len(),
            all == texts(w@),
            all == words(line@),
            word_after(all.skip(i as int), mark@) == word_after(all, mark@),
        decreases n - i,
    {
        assert(all.skip(i as int)[0] == w@[i as int]@);
        if same(w[i].as_str(), mark) {
            if i + 1 < n {
                assert(all.skip(i as int)[1] == w@[i + 1]@);
                return w[i + 1].clone();
            }
            return String::new();
        }
        assert(all.skip(i as int).skip(1) =~= all.skip(i + 1));
        i += 1;
    }
    String::new()
}

} // verus!
