//! What the readers of text find, stated on the text itself: where a text stands in another, which
//! characters a trim takes away, and how a text falls into words, lines and pieces.
use vstd::prelude::*;

use crate::text::{
    after_prefix, begins, carries, finishes, first_after, in_class, index_of, inked, is_alnum,
    is_digit, is_hex_digit, is_white, joined, last_index_of, last_match, lemma_index_of,
    lemma_match_of, lemma_word_len, line_texts, lowered, match_of, occurs_at,
    parted, parted_last, pieces, precedes, quoted, replaced, rest_after_last, strip_end, strip_start,
    text_pieces, trimmed, word_after, word_len, words, Class, Text,
};

verus! {

/// Whether every character of a text is white space.
pub open spec fn blank(s: Text) -> bool {
    forall|i: int| 0 <= i < s.len() ==> is_white(#[trigger] s[i])
}

/// White space is the space, the five controls from tab to return, and the blanks of Unicode; no
/// letter, digit or mark is among it.
pub proof fn law_white_space(c: char)
    ensures
        is_white(c) <==> {
            ||| c == ' '
            ||| '\u{9}' <= c <= '\u{d}'
            ||| c == '\u{85}'
            ||| c == '\u{a0}'
            ||| c == '\u{1680}'
            ||| '\u{2000}' <= c <= '\u{200a}'
            ||| c == '\u{2028}'
            ||| c == '\u{2029}'
            ||| c == '\u{202f}'
            ||| c == '\u{205f}'
            ||| c == '\u{3000}'
        },
{
}

/// A digit is one of the ten of ASCII, a letter or digit one of the sixty-two, a digit of sixteen
/// one of the twenty-two in both cases.
pub proof fn law_letters_and_digits(c: char)
    ensures
        is_digit(c) <==> '0' <= c <= '9',
        is_alnum(c) <==> '0' <= c <= '9' || 'a' <= c <= 'z' || 'A' <= c <= 'Z',
        is_hex_digit(c) <==> '0' <= c <= '9' || 'a' <= c <= 'f' || 'A' <= c <= 'F',
{
}

/// A text carries another exactly where it is that other with something before and something behind.
pub proof fn law_carries(s: Text, p: Text)
    ensures
        carries(s, p) <==> exists|a: Text, b: Text| s == #[trigger] (a + p + b),
{
    if carries(s, p) {
        let i = choose|i: int| occurs_at(s, p, i);
        assert(s =~= s.take(i) + p + s.skip(i + p.len()));
    }
    if exists|a: Text, b: Text| s == #[trigger] (a + p + b) {
        let (a, b) = choose|a: Text, b: Text| s == #[trigger] (a + p + b);
        assert(s.subrange(a.len() as int, (a.len() + p.len()) as int) =~= p);
        assert(occurs_at(s, p, a.len() as int));
    }
}

/// A text begins with another exactly where it is that other with something behind, and that is what
/// taking the other off leaves; it finishes with another exactly where it is that other with
/// something before.
pub proof fn law_begins_and_finishes(s: Text, p: Text)
    ensures
        begins(s, p) <==> exists|b: Text| s == #[trigger] (p + b),
        finishes(s, p) <==> exists|a: Text| s == #[trigger] (a + p),
        forall|b: Text| after_prefix(#[trigger] (p + b), p) == Some(b),
        !begins(s, p) ==> after_prefix(s, p) is None,
{
    if begins(s, p) {
        assert(s =~= p + s.skip(p.len() as int));
    }
    if exists|b: Text| s == #[trigger] (p + b) {
        let b = choose|b: Text| s == #[trigger] (p + b);
        assert(s.take(p.len() as int) =~= p);
    }
    if finishes(s, p) {
        assert(s =~= s.take(s.len() - p.len()) + p);
    }
    if exists|a: Text| s == #[trigger] (a + p) {
        let a = choose|a: Text| s == #[trigger] (a + p);
        assert(s.skip(s.len() - p.len()) =~= p);
    }
    assert forall|b: Text| after_prefix(#[trigger] (p + b), p) == Some(b) by {
        assert((p + b).take(p.len() as int) =~= p);
        assert((p + b).skip(p.len() as int) =~= b);
    }
}

proof fn lemma_strip_start_at(k: Class, s: Text) -> (n: int)
    ensures
        0 <= n <= s.len(),
        strip_start(k, s) == s.skip(n),
        forall|i: int| 0 <= i < n ==> in_class(k, #[trigger] s[i]),
        n < s.len() ==> !in_class(k, s[n]),
    decreases s.len(),
{
    if s.len() > 0 && in_class(k, s[0]) {
        let n = lemma_strip_start_at(k, s.skip(1));
        assert(s.skip(1).skip(n) =~= s.skip(n + 1));
        assert forall|i: int| 0 <= i < n + 1 implies in_class(k, #[trigger] s[i]) by {
            if i > 0 {
                assert(s[i] == s.skip(1)[i - 1]);
            }
        }
        n + 1
    } else {
        assert(s.skip(0) =~= s);
        0
    }
}

proof fn lemma_strip_end_at(k: Class, s: Text) -> (n: int)
    ensures
        0 <= n <= s.len(),
        strip_end(k, s) == s.take(n),
        forall|i: int| n <= i < s.len() ==> in_class(k, #[trigger] s[i]),
        n > 0 ==> !in_class(k, s[n - 1]),
    decreases s.len(),
{
    if s.len() > 0 && in_class(k, s.last()) {
        let n = lemma_strip_end_at(k, s.drop_last());
        assert(s.drop_last().take(n) =~= s.take(n));
        assert forall|i: int| n <= i < s.len() implies in_class(k, #[trigger] s[i]) by {
            if i < s.len() - 1 {
                assert(s[i] == s.drop_last()[i]);
            }
        }
        n
    } else {
        assert(s.take(s.len() as int) =~= s);
        s.len() as int
    }
}

/// Stripping takes away characters of the class at both ends, all of them, and nothing else.
pub proof fn law_stripped(k: Class, s: Text)
    ensures
        exists|a: int, b: int|
            {
                &&& 0 <= a <= b <= s.len()
                &&& strip_end(k, strip_start(k, s)) == #[trigger] s.subrange(a, b)
                &&& forall|i: int| 0 <= i < a ==> in_class(k, #[trigger] s[i])
                &&& forall|i: int| b <= i < s.len() ==> in_class(k, #[trigger] s[i])
                &&& a < b ==> !in_class(k, s[a]) && !in_class(k, s[b - 1])
            },
{
    let a = lemma_strip_start_at(k, s);
    let t = s.skip(a);
    let n = lemma_strip_end_at(k, t);
    let b = a + n;
    assert(t.take(n) =~= s.subrange(a, b));
    assert forall|i: int| b <= i < s.len() implies in_class(k, #[trigger] s[i]) by {
        assert(s[i] == t[i - a]);
    }
    if a < b {
        assert(t[n - 1] == s[b - 1]);
    }
}

/// The same of white space: what a trim takes away is white space at the two ends, all of it, and
/// nothing else; so nothing is left exactly where the text is blank.
pub proof fn law_trimmed(s: Text)
    ensures
        exists|a: int, b: int|
            {
                &&& 0 <= a <= b <= s.len()
                &&& trimmed(s) == #[trigger] s.subrange(a, b)
                &&& forall|i: int| 0 <= i < a ==> is_white(#[trigger] s[i])
                &&& forall|i: int| b <= i < s.len() ==> is_white(#[trigger] s[i])
                &&& a < b ==> !is_white(s[a]) && !is_white(s[b - 1])
            },
        trimmed(s).len() == 0 <==> blank(s),
{
    law_stripped(Class::White, s);
    let (a, b) = choose|a: int, b: int|
        {
            &&& 0 <= a <= b <= s.len()
            &&& trimmed(s) == #[trigger] s.subrange(a, b)
            &&& forall|i: int| 0 <= i < a ==> in_class(Class::White, #[trigger] s[i])
            &&& forall|i: int| b <= i < s.len() ==> in_class(Class::White, #[trigger] s[i])
            &&& a < b ==> !in_class(Class::White, s[a]) && !in_class(Class::White, s[b - 1])
        };
    assert forall|i: int| 0 <= i < a implies is_white(#[trigger] s[i]) by {
        assert(in_class(Class::White, s[i]));
    }
    assert forall|i: int| b <= i < s.len() implies is_white(#[trigger] s[i]) by {
        assert(in_class(Class::White, s[i]));
    }
    assert(trimmed(s) == s.subrange(a, b));
    if a < b {
        assert(!is_white(s[a]));
    }
}

/// What stands between white space comes out of a trim as it is.
pub proof fn law_trim_finds_the_inside(a: Text, t: Text, b: Text)
    requires
        blank(a),
        blank(b),
        t.len() > 0,
        !is_white(t[0]),
        !is_white(t.last()),
    ensures
        trimmed(a + t + b) == t,
{
    let s = a + t + b;
    law_trimmed(s);
    let (i, j) = choose|i: int, j: int|
        {
            &&& 0 <= i <= j <= s.len()
            &&& trimmed(s) == #[trigger] s.subrange(i, j)
            &&& forall|k: int| 0 <= k < i ==> is_white(#[trigger] s[k])
            &&& forall|k: int| j <= k < s.len() ==> is_white(#[trigger] s[k])
            &&& i < j ==> !is_white(s[i]) && !is_white(s[j - 1])
        };
    let p: int = a.len() as int;
    let q: int = (a.len() + t.len()) as int;
    assert(s[p] == t[0]);
    assert(s[q - 1] == t.last());
    assert(i <= p);
    assert(j >= q);
    if i < p {
        assert(s[i] == a[i]);
        assert(is_white(a[i]));
    }
    if j > q {
        assert(s[j - 1] == b[j - 1 - q]);
        assert(is_white(b[j - 1 - q]));
    }
    assert(s.subrange(p, q) =~= t);
}

/// The four sets of characters that a strip takes away.
pub proof fn law_classes(c: char)
    ensures
        in_class(Class::White, c) <==> is_white(c),
        in_class(Class::Quote, c) <==> c == '"',
        in_class(Class::Bracket, c) <==> c == '[' || c == ']',
        in_class(Class::ColonOrSpace, c) <==> c == ':' || c == ' ',
{
}

proof fn lemma_word_len_before(a: Text, c: char, b: Text)
    requires
        is_white(c),
    ensures
        word_len(a + seq![c] + b) == word_len(a),
    decreases a.len(),
{
    let s = a + seq![c] + b;
    if a.len() == 0 {
        assert(s[0] == c);
    } else {
        assert(s[0] == a[0]);
        if !is_white(a[0]) {
            lemma_word_len_before(a.skip(1), c, b);
            assert(s.skip(1) =~= a.skip(1) + seq![c] + b);
        }
    }
}

proof fn lemma_words_skip(s: Text)
    requires
        s.len() > 0,
        is_white(s[0]),
    ensures
        words(s) == words(s.skip(1)),
{
    assert(strip_start(Class::White, s) == strip_start(Class::White, s.skip(1)));
}

/// White space parts words: the words of two texts with white space between them are the words of
/// the one and then those of the other.
pub proof fn law_words_are_parted_by_white_space(a: Text, c: char, b: Text)
    requires
        is_white(c),
    ensures
        words(a + seq![c] + b) == words(a) + words(b),
    decreases a.len(),
{
    let s = a + seq![c] + b;
    if a.len() == 0 {
        assert(s[0] == c);
        assert(s.skip(1) =~= b);
        lemma_words_skip(s);
        assert(words(a) =~= seq![]);
        assert(words(a) + words(b) =~= words(b));
    } else if is_white(a[0]) {
        assert(s[0] == a[0]);
        lemma_words_skip(s);
        lemma_words_skip(a);
        assert(s.skip(1) =~= a.skip(1) + seq![c] + b);
        law_words_are_parted_by_white_space(a.skip(1), c, b);
    } else {
        assert(s[0] == a[0]);
        let k = word_len(a) as int;
        lemma_word_len(a);
        lemma_word_len_before(a, c, b);
        assert(s.take(k) =~= a.take(k));
        assert(s.skip(k) =~= a.skip(k) + seq![c] + b);
        law_words_are_parted_by_white_space(a.skip(k), c, b);
        assert(words(s) == seq![a.take(k)] + words(s.skip(k)));
        assert(words(a) == seq![a.take(k)] + words(a.skip(k)));
        assert(words(s) =~= words(a) + words(b));
    }
}

proof fn lemma_word_len_all(s: Text)
    requires
        forall|i: int| 0 <= i < s.len() ==> !is_white(#[trigger] s[i]),
    ensures
        word_len(s) == s.len(),
    decreases s.len(),
{
    if s.len() > 0 {
        assert forall|i: int| 0 <= i < s.skip(1).len() implies !is_white(#[trigger] s.skip(1)[i]) by {
            assert(s.skip(1)[i] == s[i + 1]);
        }
        lemma_word_len_all(s.skip(1));
    }
}

/// A text without white space is one word, and the empty text has none.
pub proof fn law_a_word_stands_alone(s: Text)
    requires
        forall|i: int| 0 <= i < s.len() ==> !is_white(#[trigger] s[i]),
    ensures
        words(s) == if s.len() == 0 {
            Seq::<Text>::empty()
        } else {
            seq![s]
        },
{
    if s.len() > 0 {
        lemma_word_len_all(s);
        let n = s.len() as int;
        assert(!is_white(s[0]));
        assert(strip_start(Class::White, s) == s);
        assert(s.take(n) =~= s);
        assert(words(s.skip(n)) =~= seq![]);
        assert(words(s) == seq![s.take(n)] + words(s.skip(n)));
    }
}

/// Whether a text holds no `c`.
pub open spec fn lacks(s: Text, c: char) -> bool {
    forall|i: int| 0 <= i < s.len() ==> #[trigger] s[i] != c
}

proof fn lemma_first_at(a: Text, c: char, b: Text)
    requires
        lacks(a, c),
    ensures
        index_of(a + seq![c] + b, c) == a.len(),
        (a + seq![c] + b).take(a.len() as int) == a,
        (a + seq![c] + b).skip(a.len() as int + 1) == b,
{
    let s = a + seq![c] + b;
    lemma_index_of(s, c);
    let k = index_of(s, c) as int;
    assert(s[a.len() as int] == c);
    if k < a.len() {
        assert(s[k] == a[k]);
    }
    assert(s.take(a.len() as int) =~= a);
    assert(s.skip(a.len() as int + 1) =~= b);
}

/// The pieces of a text: up to the first mark, and then the pieces of what follows it; a text
/// without the mark is one piece.
pub proof fn law_pieces(a: Text, c: char, b: Text)
    requires
        lacks(a, c),
    ensures
        pieces(a, c) == seq![a],
        pieces(a + seq![c] + b, c) == seq![a] + pieces(b, c),
{
    lemma_index_of(a, c);
    lemma_first_at(a, c, b);
}

/// The lines of a text: up to the first line feed, without a carriage return before it, and then
/// the lines of what follows; a text without a line feed is one line, and the empty text has none.
pub proof fn law_lines(a: Text, b: Text)
    requires
        lacks(a, '\n'),
    ensures
        line_texts(a) == if a.len() == 0 {
            Seq::<Text>::empty()
        } else {
            seq![a]
        },
        line_texts(a + seq!['\n'] + b) == seq![
            if a.len() > 0 && a.last() == '\r' {
                a.drop_last()
            } else {
                a
            },
        ] + line_texts(b),
{
    lemma_index_of(a, '\n');
    lemma_first_at(a, '\n', b);
}

proof fn lemma_last_index(s: Text, c: char)
    ensures
        -1 <= last_index_of(s, c) < s.len(),
        last_index_of(s, c) >= 0 ==> s[last_index_of(s, c)] == c,
        forall|i: int| last_index_of(s, c) < i < s.len() ==> #[trigger] s[i] != c,
    decreases s.len(),
{
    if s.len() > 0 && s.last() != c {
        lemma_last_index(s.drop_last(), c);
        assert forall|i: int| last_index_of(s, c) < i < s.len() implies #[trigger] s[i] != c by {
            if i < s.len() - 1 {
                assert(s[i] == s.drop_last()[i]);
            }
        }
    }
}

/// A text is parted at the first mark, or at the last one: what stands before it and what stands
/// behind it; where the mark is missing nothing comes.
pub proof fn law_parted(a: Text, c: char, b: Text)
    ensures
        lacks(a, c) ==> parted(a, c) is None && parted(a + seq![c] + b, c) == Some((a, b)),
        lacks(b, c) ==> parted_last(b, c) is None && parted_last(a + seq![c] + b, c) == Some((a, b)),
{
    if lacks(a, c) {
        lemma_index_of(a, c);
        lemma_first_at(a, c, b);
    }
    if lacks(b, c) {
        let s = a + seq![c] + b;
        lemma_last_index(b, c);
        lemma_last_index(s, c);
        let k = last_index_of(s, c);
        assert(s[a.len() as int] == c);
        if k > a.len() {
            assert(s[k] == b[k - a.len() - 1]);
        }
        assert(k == a.len());
        assert(s.take(k) =~= a);
        assert(s.skip(k + 1) =~= b);
    }
}

proof fn lemma_last_match(s: Text, p: Text)
    ensures
        -1 <= last_match(s, p) <= s.len(),
        last_match(s, p) >= 0 ==> occurs_at(s, p, last_match(s, p)),
        forall|i: int| last_match(s, p) < i ==> !#[trigger] occurs_at(s, p, i),
    decreases s.len(),
{
    let k = last_match(s, p);
    if finishes(s, p) {
        assert(s.skip(s.len() - p.len()) =~= s.subrange(k, k + p.len()));
    } else if s.len() > 0 {
        let t = s.drop_last();
        lemma_last_match(t, p);
        if k >= 0 {
            assert(t.subrange(k, k + p.len()) =~= s.subrange(k, k + p.len()));
        }
        assert forall|i: int| k < i implies !#[trigger] occurs_at(s, p, i) by {
            if occurs_at(s, p, i) {
                if i + p.len() == s.len() {
                    assert(s.subrange(i, i + p.len()) =~= s.skip(s.len() - p.len()));
                } else {
                    assert(t.subrange(i, i + p.len()) =~= s.subrange(i, i + p.len()));
                    assert(occurs_at(t, p, i));
                }
            }
        }
    } else {
        assert forall|i: int| k < i implies !#[trigger] occurs_at(s, p, i) by {
            if occurs_at(s, p, i) {
                assert(s.skip(s.len() - p.len()) =~= p);
            }
        }
    }
}

/// What follows the last occurrence of a text: nothing where it does not occur, and otherwise what
/// stands behind an occurrence that no other comes after.
pub proof fn law_rest_after_last(s: Text, p: Text, i: int)
    ensures
        !carries(s, p) ==> rest_after_last(s, p) is None,
        occurs_at(s, p, i) && (forall|j: int| i < j ==> !#[trigger] occurs_at(s, p, j))
            ==> rest_after_last(s, p) == Some(s.skip(i + p.len())),
{
    lemma_last_match(s, p);
    if last_match(s, p) >= 0 {
        assert(occurs_at(s, p, last_match(s, p)));
    }
}

/// A text that lacks the separator is one piece; otherwise its pieces are what stands before the
/// first separator, and then the pieces of what follows it.
pub proof fn law_text_pieces(s: Text, p: Text, i: int)
    requires
        p.len() > 0,
    ensures
        !carries(s, p) ==> text_pieces(s, p) == seq![s],
        occurs_at(s, p, i) && (forall|j: int| 0 <= j < i ==> !#[trigger] occurs_at(s, p, j))
            ==> text_pieces(s, p) == seq![s.take(i)] + text_pieces(s.skip(i + p.len()), p),
{
    lemma_match_of(s, p);
    let k = match_of(s, p) as int;
    if occurs_at(s, p, i) && (forall|j: int| 0 <= j < i ==> !#[trigger] occurs_at(s, p, j)) {
        assert(carries(s, p));
        assert(occurs_at(s, p, k));
        assert(k == i);
    }
}

proof fn lemma_joined_front(x: Text, v: Seq<Text>, sep: Text)
    requires
        v.len() > 0,
    ensures
        joined(seq![x] + v, sep) == x + sep + joined(v, sep),
    decreases v.len(),
{
    let w = seq![x] + v;
    if v.len() == 1 {
        assert(w.drop_last() =~= seq![x]);
        assert(joined(seq![x], sep) == x);
        assert(w.last() == v[0]);
    } else {
        lemma_joined_front(x, v.drop_last(), sep);
        assert(w.drop_last() =~= seq![x] + v.drop_last());
        assert(w.last() == v.last());
        assert(joined(w, sep) =~= x + sep + joined(v, sep));
    }
}

/// Joining: no texts give the empty text, one gives itself, and a text before others is followed by
/// the separator and then by the others joined.
pub proof fn law_joined(x: Text, v: Seq<Text>, sep: Text)
    ensures
        joined(Seq::<Text>::empty(), sep) == Seq::<char>::empty(),
        joined(seq![x], sep) == x,
        v.len() > 0 ==> joined(seq![x] + v, sep) == x + sep + joined(v, sep),
{
    if v.len() > 0 {
        lemma_joined_front(x, v, sep);
    }
}

/// Replacing: a text that lacks what is sought is left alone; otherwise what stands before the
/// first occurrence stays, the replacement follows, and the rest is replaced in the same way.
pub proof fn law_replaced(s: Text, from: Text, to: Text, i: int)
    requires
        from.len() > 0,
    ensures
        !carries(s, from) ==> replaced(s, from, to) == s,
        occurs_at(s, from, i) && (forall|j: int| 0 <= j < i ==> !#[trigger] occurs_at(s, from, j))
            ==> replaced(s, from, to) == s.take(i) + to + replaced(
            s.skip(i + from.len()),
            from,
            to,
        ),
{
    law_text_pieces(s, from, i);
    if occurs_at(s, from, i) && (forall|j: int| 0 <= j < i ==> !#[trigger] occurs_at(s, from, j)) {
        let rest = text_pieces(s.skip(i + from.len()), from);
        assert(rest.len() > 0);
        lemma_joined_front(s.take(i), rest, to);
    }
}

/// Lower case: the letters `A` to `Z` move up by thirty-two, and every other character stays.
pub proof fn law_lowered(s: Text, i: int)
    requires
        0 <= i < s.len(),
    ensures
        lowered(s).len() == s.len(),
        'A' <= s[i] <= 'Z' ==> lowered(s)[i] as int == s[i] as int + 32,
        !('A' <= s[i] <= 'Z') ==> lowered(s)[i] == s[i],
{
}

/// Whether two texts agree on their first `n` characters.
pub open spec fn agree(a: Text, b: Text, n: int) -> bool {
    0 <= n <= a.len() && n <= b.len() && forall|i: int| 0 <= i < n ==> #[trigger] a[i] == b[i]
}

/// The order of texts is that of their first difference, and a text comes before one that goes on
/// where it ends.
pub proof fn law_precedes(a: Text, b: Text)
    ensures
        precedes(a, b) <==> exists|n: int|
            #[trigger] agree(a, b, n) && n < b.len() && (n == a.len() || a[n] < b[n]),
    decreases a.len(),
{
    if a.len() > 0 && b.len() > 0 && a[0] == b[0] {
        let (x, y) = (a.skip(1), b.skip(1));
        law_precedes(x, y);
        if precedes(a, b) {
            let n = choose|n: int|
                #[trigger] agree(x, y, n) && n < y.len() && (n == x.len() || x[n] < y[n]);
            assert forall|i: int| 0 <= i < n + 1 implies #[trigger] a[i] == b[i] by {
                if i > 0 {
                    assert(a[i] == x[i - 1] && b[i] == y[i - 1]);
                }
            }
            assert(agree(a, b, n + 1));
        }
        if exists|n: int|
            #[trigger] agree(a, b, n) && n < b.len() && (n == a.len() || a[n] < b[n]) {
            let n = choose|n: int|
                #[trigger] agree(a, b, n) && n < b.len() && (n == a.len() || a[n] < b[n]);
            assert(n > 0);
            assert forall|i: int| 0 <= i < n - 1 implies #[trigger] x[i] == y[i] by {
                assert(x[i] == a[i + 1] && y[i] == b[i + 1]);
            }
            assert(agree(x, y, n - 1));
        }
    } else {
        assert(agree(a, b, 0));
        if exists|n: int|
            #[trigger] agree(a, b, n) && n < b.len() && (n == a.len() || a[n] < b[n]) {
            let n = choose|n: int|
                #[trigger] agree(a, b, n) && n < b.len() && (n == a.len() || a[n] < b[n]);
            if n > 0 {
                assert(a[0] == b[0]);
            }
        }
    }
}

/// The first line that begins with a mark gives what follows the mark; where none does, nothing
/// comes.
pub proof fn law_first_after(v: Seq<Text>, p: Text, i: int)
    ensures
        (forall|j: int| 0 <= j < v.len() ==> !begins(#[trigger] v[j], p)) ==> first_after(
            v,
            p,
        ) is None,
        0 <= i < v.len() && begins(v[i], p) && (forall|j: int|
            0 <= j < i ==> !begins(#[trigger] v[j], p)) ==> first_after(v, p) == Some(
            v[i].skip(p.len() as int),
        ),
    decreases v.len(),
{
    if v.len() > 0 && !begins(v[0], p) {
        let w = v.skip(1);
        law_first_after(w, p, i - 1);
        if forall|j: int| 0 <= j < v.len() ==> !begins(#[trigger] v[j], p) {
            assert forall|j: int| 0 <= j < w.len() implies !begins(#[trigger] w[j], p) by {
                assert(w[j] == v[j + 1]);
            }
        }
        if 0 <= i < v.len() && begins(v[i], p) && (forall|j: int|
            0 <= j < i ==> !begins(#[trigger] v[j], p)) {
            assert(i > 0);
            assert(w[i - 1] == v[i]);
            assert forall|j: int| 0 <= j < i - 1 implies !begins(#[trigger] w[j], p) by {
                assert(w[j] == v[j + 1]);
            }
        }
    } else if v.len() > 0 {
        if 0 <= i < v.len() && (forall|j: int| 0 <= j < i ==> !begins(#[trigger] v[j], p)) {
            assert(i == 0);
        }
    }
}

/// A line more adds one to the count of those that are more than white space exactly where it is.
pub proof fn law_inked(v: Seq<Text>, line: Text)
    ensures
        inked(Seq::<Text>::empty()) == 0,
        inked(v.push(line)) == inked(v) + if blank(line) {
            0int
        } else {
            1
        },
{
    law_trimmed(line);
    assert(v.push(line).drop_last() =~= v);
}

/// The word behind the first occurrence of a mark; the empty text where the mark is missing or is
/// the last word.
pub proof fn law_word_after(w: Seq<Text>, mark: Text, i: int)
    ensures
        !w.contains(mark) ==> word_after(w, mark) == Seq::<char>::empty(),
        0 <= i < w.len() && w[i] == mark && (forall|j: int|
            0 <= j < i ==> #[trigger] w[j] != mark) ==> word_after(w, mark) == if i + 1 < w.len() {
            w[i + 1]
        } else {
            Seq::<char>::empty()
        },
    decreases w.len(),
{
    if w.len() > 0 && w[0] != mark {
        let t = w.skip(1);
        law_word_after(t, mark, i - 1);
        if !w.contains(mark) {
            assert forall|j: int| 0 <= j < t.len() implies #[trigger] t[j] != mark by {
                assert(t[j] == w[j + 1]);
            }
            assert(!t.contains(mark));
        }
        if 0 <= i < w.len() && w[i] == mark && (forall|j: int|
            0 <= j < i ==> #[trigger] w[j] != mark) {
            assert(t[i - 1] == w[i]);
            assert forall|j: int| 0 <= j < i - 1 implies #[trigger] t[j] != mark by {
                assert(t[j] == w[j + 1]);
            }
        }
    } else if w.len() > 0 {
        assert(w.contains(mark));
        if 0 <= i < w.len() && (forall|j: int| 0 <= j < i ==> #[trigger] w[j] != mark) {
            assert(i == 0);
        }
    }
}

/// A text in quotation marks is the text between two of them.
pub proof fn law_quoted(s: Text)
    ensures
        quoted(s) == seq!['"'] + s + seq!['"'],
{
    reveal_strlit("\"");
    assert(quoted(s) =~= seq!['"'] + s + seq!['"']);
}

/// Replacing one character by another changes every one of them, and nothing else.
pub proof fn law_replaced_characters(s: Text, from: char, to: char)
    ensures
        replaced(s, seq![from], seq![to]) == s.map_values(
            |c: char|
                if c == from {
                    to
                } else {
                    c
                },
        ),
    decreases s.len(),
{
    let f = |c: char|
        if c == from {
            to
        } else {
            c
        };
    let p = seq![from];
    lemma_match_of(s, p);
    let i = match_of(s, p) as int;
    law_replaced(s, p, seq![to], i);
    assert forall|j: int| 0 <= j < s.len() && s[j] == from implies occurs_at(s, p, j) by {
        assert(s.subrange(j, j + 1) =~= p);
    }
    if i < s.len() {
        let rest = s.skip(i + 1);
        law_replaced_characters(rest, from, to);
        assert(s.subrange(i, i + 1)[0] == s[i]);
        assert(s[i] == from);
        assert(s.map_values(f) =~= s.take(i) + seq![to] + rest.map_values(f));
    } else {
        assert(s.map_values(f) =~= s);
    }
}

} // verus!
