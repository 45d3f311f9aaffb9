//! Text: UTF-8, white space, letter case and decimal numbers.

use vstd::prelude::*;
use vstd::string::{StrSliceExecFns, StringExecFns};
use vstd::utf8::{decode_utf8, encode_utf8, encode_utf8_decode_utf8, is_ascii_chars, valid_utf8};

verus! {

/// How `core::str::Utf8Error` describes what is wrong with bytes that are not UTF-8.
pub uninterp spec fn utf8_fault(bytes: Seq<u8>) -> Seq<char>;

/// Calls `core::str::from_utf8`, which accepts exactly the bytes that are UTF-8 and gives the text
/// that they encode. The error is given as it is displayed, which depends on the bytes alone.
#[verifier::external_body]
pub(crate) fn from_utf8(bytes: &[u8]) -> (r: Result<&str, String>)
    ensures
        match r {
            Ok(s) => valid_utf8(bytes@) && s@ == decode_utf8(bytes@),
            Err(e) => !valid_utf8(bytes@) && e@ == utf8_fault(bytes@),
        },
{
    core::str::from_utf8(bytes).map_err(|e| e.to_string())
}

/// The characters with the `White_Space` property of Unicode.
pub open spec fn white_space(c: char) -> bool {
    ||| '\u{9}' <= c <= '\u{d}'
    ||| c == '\u{20}'
    ||| c == '\u{85}'
    ||| c == '\u{a0}'
    ||| c == '\u{1680}'
    ||| '\u{2000}' <= c <= '\u{200a}'
    ||| c == '\u{2028}'
    ||| c == '\u{2029}'
    ||| c == '\u{202f}'
    ||| c == '\u{205f}'
    ||| c == '\u{3000}'
}

/// Tells whether a character is white space.
pub(crate) fn is_white_space(c: char) -> (r: bool)
    ensures
        r == white_space(c),
{
    ('\u{9}' <= c && c <= '\u{d}') || c == '\u{20}' || c == '\u{85}' || c == '\u{a0}' || c
        == '\u{1680}' || ('\u{2000}' <= c && c <= '\u{200a}') || c == '\u{2028}' || c == '\u{2029}'
        || c == '\u{202f}' || c == '\u{205f}' || c == '\u{3000}'
}

/// What `str::to_lowercase` makes of a text.
pub uninterp spec fn lowercase(s: Seq<char>) -> Seq<char>;

/// A text with its letters `A` to `Z` made small.
pub open spec fn ascii_lowercase(s: Seq<char>) -> Seq<char> {
    Seq::new(
        s.len(),
        |i: int|
            if 'A' <= s[i] <= 'Z' {
                (s[i] as u32 + 32) as char
            } else {
                s[i]
            },
    )
}

/// Whether a text, if it is ASCII, is made small by making its letters `A` to `Z` small.
pub open spec fn plain_case(s: Seq<char>) -> bool {
    is_ascii_chars(s) ==> lowercase(s) == ascii_lowercase(s)
}

/// Calls `str::to_lowercase`, whose result depends on the text alone. Of an ASCII text it makes the
/// letters `A` to `Z` small and keeps the rest.
#[verifier::external_body]
pub(crate) fn to_lowercase(s: &str) -> (r: String)
    ensures
        r@ == lowercase(s@),
        is_ascii_chars(s@) ==> r@ == ascii_lowercase(s@),
{
    s.to_lowercase()
}

/// How `core::str::SplitWhitespace` shows, for debugging, what is left of a text behind its first
/// word.
pub uninterp spec fn remaining_words(s: Seq<char>) -> Seq<char>;

/// Formats, for debugging, the iterator that `str::split_whitespace` gives, once its first word has
/// been taken. The text depends on the iterated text alone; nothing is said of what it looks like.
#[verifier::external_body]
pub(crate) fn debug_remaining_words(s: &str) -> (r: String)
    ensures
        r@ == remaining_words(s@),
{
    let mut words = s.split_whitespace();
    let _ = words.next();
    format!("{:?}", words)
}

/// The encoding of two texts, one after the other.
pub proof fn encode_utf8_concat(a: Seq<char>, b: Seq<char>)
    ensures
        encode_utf8(a + b) == encode_utf8(a) + encode_utf8(b),
    decreases a.len(),
{
    if a.len() == 0 {
        assert(a + b =~= b);
        assert(encode_utf8(a) + encode_utf8(b) =~= encode_utf8(b));
    } else {
        encode_utf8_concat(a.drop_first(), b);
        assert((a + b).drop_first() =~= a.drop_first() + b);
        assert(encode_utf8(a + b) =~= encode_utf8(a) + encode_utf8(b));
    }
}

/// A part of a text is not longer than the text, also once encoded.
pub proof fn encode_utf8_subrange_len(s: Seq<char>, i: int, j: int)
    requires
        0 <= i <= j <= s.len(),
    ensures
        encode_utf8(s.subrange(i, j)).len() <= encode_utf8(s).len(),
{
    encode_utf8_concat(s.subrange(0, i), s.subrange(i, j));
    encode_utf8_concat(s.subrange(0, i) + s.subrange(i, j), s.subrange(j, s.len() as int));
    assert(s.subrange(0, i) + s.subrange(i, j) + s.subrange(j, s.len() as int) =~= s);
}

/// Whether two texts are the same.
pub(crate) fn same_text(a: &str, b: &str) -> (r: bool)
    ensures
        r == (a@ == b@),
{
    let x = a.as_bytes();
    let y = b.as_bytes();
    proof {
        encode_utf8_decode_utf8(a@);
        encode_utf8_decode_utf8(b@);
    }
    if x.len() != y.len() {
        return false;
    }
    let mut i: usize = 0;
    while i < x.len()
        invariant
            i <= x@.len(),
            x@.len() == y@.len(),
            x@ == encode_utf8(a@),
            y@ == encode_utf8(b@),
            forall|j: int| 0 <= j < i ==> x@[j] == y@[j],
        decreases x@.len() - i,
    {
        if x[i] != y[i] {
            return false;
        }
        i += 1;
    }
    assert(x@ =~= y@);
    true
}

/// The characters of a text.
fn chars_of(s: &str) -> (r: Vec<char>)
    ensures
        r@ == s@,
{
    let mut r: Vec<char> = Vec::new();
    for c in it: s.chars()
        invariant
            it.seq() == s@,
            r@ == s@.take(it.index() as int),
    {
        r.push(c);
        assert(r@ =~= s@.take(it.index() + 1));
    }
    assert(s@.take(s@.len() as int) =~= s@);
    r
}

/// A text without the white space at its start.
pub open spec fn trim_start(s: Seq<char>) -> Seq<char>
    decreases s.len(),
{
    if s.len() > 0 && white_space(s[0]) {
        trim_start(s.skip(1))
    } else {
        s
    }
}

/// A text without the white space at its end.
pub open spec fn trim_end(s: Seq<char>) -> Seq<char>
    decreases s.len(),
{
    if s.len() > 0 && white_space(s.last()) {
        trim_end(s.drop_last())
    } else {
        s
    }
}

/// A text without the white space at either end.
pub open spec fn trimmed(s: Seq<char>) -> Seq<char> {
    trim_end(trim_start(s))
}

/// A trimmed text is not longer than the text, also once encoded.
pub proof fn trimmed_len(s: Seq<char>)
    ensures
        encode_utf8(trimmed(s)).len() <= encode_utf8(s).len(),
{
    trim_start_len(s);
    trim_end_len(trim_start(s));
}

proof fn trim_start_len(s: Seq<char>)
    ensures
        encode_utf8(trim_start(s)).len() <= encode_utf8(s).len(),
    decreases s.len(),
{
    if s.len() > 0 && white_space(s[0]) {
        trim_start_len(s.skip(1));
        encode_utf8_subrange_len(s, 1, s.len() as int);
    }
}

proof fn trim_end_len(s: Seq<char>)
    ensures
        encode_utf8(trim_end(s)).len() <= encode_utf8(s).len(),
    decreases s.len(),
{
    if s.len() > 0 && white_space(s.last()) {
        trim_end_len(s.drop_last());
        encode_utf8_subrange_len(s, 0, s.len() - 1);
    }
}

/// Takes the white space off both ends of a text.
pub(crate) fn trim(s: &str) -> (r: &str)
    ensures
        r@ == trimmed(s@),
{
    let chars = chars_of(s);
    let mut i: usize = 0;
    assert(s@.skip(0) =~= s@);
    while i < chars.len() && is_white_space(chars[i])
        invariant
            chars@ == s@,
            i <= chars@.len(),
            trim_start(s@.skip(i as int)) == trim_start(s@),
        decreases chars@.len() - i,
    {
        assert(s@.skip(i as int).skip(1) =~= s@.skip(i + 1));
        i += 1;
    }
    let ghost front = s@.skip(i as int);
    assert(trim_start(front) == front);
    let mut j: usize = chars.len();
    assert(s@.subrange(i as int, j as int) =~= front);
    while i < j && is_white_space(chars[j - 1])
        invariant
            chars@ == s@,
            i <= j <= chars@.len(),
            trim_end(s@.subrange(i as int, j as int)) == trim_end(front),
        decreases j,
    {
        assert(s@.subrange(i as int, j as int).drop_last() =~= s@.subrange(i as int, j - 1));
        j -= 1;
    }
    s.substring_char(i, j)
}

/// How many characters stand before the first white space.
pub open spec fn word_len(s: Seq<char>) -> nat
    decreases s.len(),
{
    if s.len() == 0 || white_space(s[0]) {
        0
    } else {
        1 + word_len(s.skip(1))
    }
}

/// A word is not longer than the text that it starts.
pub proof fn word_len_bound(s: Seq<char>)
    ensures
        word_len(s) <= s.len(),
    decreases s.len(),
{
    if s.len() > 0 && !white_space(s[0]) {
        word_len_bound(s.skip(1));
    }
}

/// The words of a text: its longest runs without white space, in order.
pub open spec fn words(s: Seq<char>) -> Seq<Seq<char>>
    decreases s.len(),
{
    if s.len() == 0 {
        Seq::empty()
    } else if white_space(s[0]) {
        words(s.skip(1))
    } else {
        let n = 1 + word_len(s.skip(1));
        proof {
            word_len_bound(s.skip(1));
        }
        seq![s.take(n as int)] + words(s.skip(n as int))
    }
}

/// A text that does not start with white space, and is not empty, has words.
pub proof fn some_words(s: Seq<char>)
    requires
        s.len() > 0,
        !white_space(s[0]),
    ensures
        words(s).len() > 0,
{
}

/// The texts that a list of strings holds.
pub open spec fn texts(list: Seq<String>) -> Seq<Seq<char>> {
    Seq::new(list.len(), |i: int| list[i]@)
}

/// Splits a text into its words.
pub(crate) fn split_words(s: &str) -> (r: Vec<String>)
    ensures
        texts(r@) == words(s@),
{
    let chars = chars_of(s);
    let mut r: Vec<String> = Vec::new();
    let mut i: usize = 0;
    assert(s@.skip(0) =~= s@);
    assert(texts(r@) + words(s@) =~= words(s@));
    while i < chars.len()
        invariant
            chars@ == s@,
            i <= chars@.len(),
            texts(r@) + words(s@.skip(i as int)) == words(s@),
        decreases chars@.len() - i,
    {
        let ghost rest = s@.skip(i as int);
        if is_white_space(chars[i]) {
            assert(rest.skip(1) =~= s@.skip(i + 1));
            i += 1;
        } else {
            let start = i;
            i += 1;
            assert(rest.skip(1) =~= s@.skip(i as int));
            while i < chars.len() && !is_white_space(chars[i])
                invariant
                    chars@ == s@,
                    start < i <= chars@.len(),
                    word_len(rest.skip(1)) == (i - start - 1) + word_len(s@.skip(i as int)),
                decreases chars@.len() - i,
            {
                assert(s@.skip(i as int).skip(1) =~= s@.skip(i + 1));
                i += 1;
            }
            let word = s.substring_char(start, i);
            let ghost before = r@;
            r.push(word.to_string());
            proof {
                let n = i - start;
                assert(word_len(s@.skip(i as int)) == 0);
                assert(rest.take(n) =~= s@.subrange(start as int, i as int));
                assert(rest.skip(n) =~= s@.skip(i as int));
                assert(texts(r@) =~= texts(before).push(word@));
                assert(texts(before) + words(rest) =~= texts(r@) + words(s@.skip(i as int)));
            }
        }
    }
    assert(texts(r@) + words(s@.skip(i as int)) =~= texts(r@));
    r
}

/// Texts one after the other, with a separator between each two.
pub open spec fn joined(list: Seq<Seq<char>>, sep: Seq<char>) -> Seq<char>
    decreases list.len(),
{
    if list.len() == 0 {
        Seq::empty()
    } else if list.len() == 1 {
        list[0]
    } else {
        joined(list.drop_last(), sep) + sep + list.last()
    }
}

/// The last place of a character.
pub open spec fn last_place(s: Seq<char>, c: char, i: int) -> bool {
    0 <= i < s.len() && s[i] == c && forall|j: int| i < j < s.len() ==> s[j] != c
}

/// The pieces of a text that stand between the places of a character.
pub open spec fn pieces(s: Seq<char>, c: char) -> Seq<Seq<char>>
    decreases s.len(),
{
    if exists|i: int| last_place(s, c, i) {
        let i = choose|i: int| last_place(s, c, i);
        pieces(s.take(i), c).push(s.skip(i + 1))
    } else {
        seq![s]
    }
}

/// Texts without a character can be told apart once they have been joined by it.
pub proof fn pieces_of_joined(list: Seq<Seq<char>>, c: char)
    requires
        list.len() > 0,
        forall|i: int| 0 <= i < list.len() ==> !(#[trigger] list[i]).contains(c),
    ensures
        pieces(joined(list, seq![c]), c) == list,
    decreases list.len(),
{
    let s = joined(list, seq![c]);
    if list.len() == 1 {
        assert(!list[0].contains(c));
        assert forall|i: int| !last_place(s, c, i) by {
            if last_place(s, c, i) {
                assert(list[0][i] == c);
            }
        }
        assert(seq![s] =~= list);
    } else {
        let (front, last) = (list.drop_last(), list.last());
        let head = joined(front, seq![c]);
        let k = head.len() as int;
        assert forall|i: int| 0 <= i < front.len() implies !(#[trigger] front[i]).contains(c) by {
            assert(front[i] == list[i]);
        }
        pieces_of_joined(front, c);
        assert(!list[list.len() - 1].contains(c));
        assert forall|j: int| k < j < s.len() implies s[j] != c by {
            assert(s[j] == last[j - k - 1]);
        }
        assert(last_place(s, c, k));
        let i = choose|i: int| last_place(s, c, i);
        assert(i == k);
        assert(s.take(k) =~= head);
        assert(s.skip(k + 1) =~= last);
        assert(front.push(last) =~= list);
    }
}

/// Appends one more text to texts that have been joined.
pub(crate) fn join_next(r: &mut String, first: bool, sep: &str, next: &str, Ghost(list): Ghost<
    Seq<Seq<char>>,
>)
    requires
        old(r)@ == joined(list, sep@),
        first == (list.len() == 0),
    ensures
        final(r)@ == joined(list.push(next@), sep@),
{
    assert(list.push(next@).drop_last() =~= list);
    if !first {
        r.append(sep);
    }
    r.append(next);
    assert(r@ =~= joined(list.push(next@), sep@));
}

/// The character of a decimal digit.
pub open spec fn digit(d: nat) -> char {
    (48 + d) as char
}

/// A number in decimal, without leading zeros.
pub open spec fn decimal(n: nat) -> Seq<char>
    decreases n,
{
    if n < 10 {
        seq![digit(n)]
    } else {
        decimal(n / 10).push(digit(n % 10))
    }
}

/// The number that decimal digits stand for.
pub open spec fn number(s: Seq<char>) -> int
    decreases s.len(),
{
    if s.len() == 0 {
        0
    } else {
        10 * number(s.drop_last()) + (s.last() as int - 48)
    }
}

/// Whether a text is made of decimal digits.
pub open spec fn all_digits(s: Seq<char>) -> bool {
    forall|i: int| 0 <= i < s.len() ==> '0' <= #[trigger] s[i] <= '9'
}

/// A number in decimal is made of digits, which stand for the number.
pub proof fn decimal_reads_back(n: nat)
    ensures
        decimal(n).len() > 0,
        all_digits(decimal(n)),
        number(decimal(n)) == n,
    decreases n,
{
    let s = decimal(n);
    if n < 10 {
        assert(s.drop_last() =~= Seq::<char>::empty());
        assert(number(s.drop_last()) == 0);
    } else {
        decimal_reads_back(n / 10);
        assert(s.drop_last() =~= decimal(n / 10));
    }
}

/// Writes a number in decimal.
pub(crate) fn to_decimal(n: u16) -> (r: String)
    ensures
        r@ == decimal(n as nat),
    decreases n,
{
    let mut r = if n < 10 {
        String::new()
    } else {
        to_decimal(n / 10)
    };
    let d = (n % 10) as usize;
    proof {
        reveal_strlit("0123456789");
    }
    let c = "0123456789".substring_char(d, d + 1);
    assert(c@ =~= seq![digit(d as nat)]);
    r.append(c);
    assert(r@ =~= decimal(n as nat));
    r
}

} // verus!
