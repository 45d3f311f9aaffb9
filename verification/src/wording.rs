//! What holds of text that is trimmed, split, joined and written in decimal.

use crate::text;
use vstd::prelude::*;

verus! {

/// Whether a text is made of white space.
pub open spec fn blank(s: Seq<char>) -> bool {
    forall|i: int| 0 <= i < s.len() ==> text::white_space(#[trigger] s[i])
}

/// Whether a text holds no white space.
pub open spec fn solid(s: Seq<char>) -> bool {
    forall|i: int| 0 <= i < s.len() ==> !text::white_space(#[trigger] s[i])
}

/// Texts with gaps around them: a gap, a text, a gap, and so on, up to a last gap.
pub open spec fn spaced(gaps: Seq<Seq<char>>, words: Seq<Seq<char>>) -> Seq<char>
    decreases words.len(),
{
    if words.len() == 0 {
        gaps[0]
    } else {
        gaps[0] + words[0] + spaced(gaps.skip(1), words.skip(1))
    }
}

/// Whether gaps keep words apart: the gaps are white space, the words hold none and are not empty,
/// and no gap between two words is empty.
pub open spec fn keeps_apart(gaps: Seq<Seq<char>>, words: Seq<Seq<char>>) -> bool {
    &&& gaps.len() == words.len() + 1
    &&& forall|i: int| 0 <= i < gaps.len() ==> blank(#[trigger] gaps[i])
    &&& forall|i: int| 0 < i < words.len() ==> (#[trigger] gaps[i]).len() > 0
    &&& forall|i: int| 0 <= i < words.len() ==> solid(#[trigger] words[i]) && words[i].len() > 0
}

/// The white space characters, by number.
pub proof fn white_space_characters(c: char)
    ensures
        text::white_space(c) <==> {
            ||| c as u32 == 9
            ||| c as u32 == 10
            ||| c as u32 == 11
            ||| c as u32 == 12
            ||| c as u32 == 13
            ||| c as u32 == 32
            ||| c as u32 == 133
            ||| c as u32 == 160
            ||| c as u32 == 5760
            ||| 8192 <= c as u32 <= 8202
            ||| c as u32 == 8232
            ||| c as u32 == 8233
            ||| c as u32 == 8239
            ||| c as u32 == 8287
            ||| c as u32 == 12288
        },
{
}

proof fn gap_is_skipped(gap: Seq<char>, s: Seq<char>)
    requires
        blank(gap),
    ensures
        text::words(gap + s) == text::words(s),
    decreases gap.len(),
{
    if gap.len() == 0 {
        assert(gap + s =~= s);
    } else {
        let rest = gap.skip(1);
        assert forall|i: int| 0 <= i < rest.len() implies text::white_space(#[trigger] rest[i]) by {
            assert(rest[i] == gap[i + 1]);
        }
        gap_is_skipped(rest, s);
        assert(text::white_space(gap[0]));
        assert((gap + s)[0] == gap[0]);
        assert((gap + s).skip(1) =~= rest + s);
    }
}

proof fn word_ends(word: Seq<char>, s: Seq<char>)
    requires
        solid(word),
        s.len() > 0 ==> text::white_space(s[0]),
    ensures
        text::word_len(word + s) == word.len(),
    decreases word.len(),
{
    if word.len() == 0 {
        assert(word + s =~= s);
    } else {
        let rest = word.skip(1);
        assert forall|i: int| 0 <= i < rest.len() implies !text::white_space(
            #[trigger] rest[i],
        ) by {
            assert(rest[i] == word[i + 1]);
        }
        word_ends(rest, s);
        assert(!text::white_space(word[0]));
        assert((word + s)[0] == word[0]);
        assert((word + s).skip(1) =~= rest + s);
    }
}

proof fn word_is_taken(word: Seq<char>, s: Seq<char>)
    requires
        solid(word),
        word.len() > 0,
        s.len() > 0 ==> text::white_space(s[0]),
    ensures
        text::words(word + s) == seq![word] + text::words(s),
{
    let all = word + s;
    let rest = word.skip(1);
    assert forall|i: int| 0 <= i < rest.len() implies !text::white_space(#[trigger] rest[i]) by {
        assert(rest[i] == word[i + 1]);
    }
    word_ends(rest, s);
    assert(!text::white_space(word[0]));
    assert(all[0] == word[0]);
    assert(all.skip(1) =~= rest + s);
    assert(all.take(word.len() as int) =~= word);
    assert(all.skip(word.len() as int) =~= s);
}

proof fn rest_keeps_apart(gaps: Seq<Seq<char>>, words: Seq<Seq<char>>)
    requires
        keeps_apart(gaps, words),
        words.len() > 0,
    ensures
        keeps_apart(gaps.skip(1), words.skip(1)),
        ({
            let rest = spaced(gaps.skip(1), words.skip(1));
            rest.len() > 0 ==> text::white_space(rest[0])
        }),
{
    let (g, w) = (gaps.skip(1), words.skip(1));
    assert forall|i: int| 0 <= i < g.len() implies blank(#[trigger] g[i]) by {
        assert(g[i] == gaps[i + 1]);
    }
    assert forall|i: int| 0 < i < w.len() implies (#[trigger] g[i]).len() > 0 by {
        assert(g[i] == gaps[i + 1]);
    }
    assert forall|i: int| 0 <= i < w.len() implies solid(#[trigger] w[i]) && w[i].len() > 0 by {
        assert(w[i] == words[i + 1]);
    }
    let rest = spaced(g, w);
    if rest.len() > 0 {
        assert(g[0] == gaps[1]);
        assert(blank(g[0]));
        if w.len() == 0 {
            assert(rest == g[0]);
        } else {
            assert(gaps[1].len() > 0);
        }
        assert(rest[0] == g[0][0]);
    }
}

/// A text is split into its words: whatever white space stands between words, before the first and
/// behind the last, exactly the words come out, each whole and in order.
pub proof fn words_are_split(gaps: Seq<Seq<char>>, words: Seq<Seq<char>>)
    requires
        keeps_apart(gaps, words),
    ensures
        text::words(spaced(gaps, words)) == words,
    decreases words.len(),
{
    assert(blank(gaps[0]));
    if words.len() == 0 {
        let none = Seq::<char>::empty();
        gap_is_skipped(gaps[0], none);
        assert(gaps[0] + none =~= gaps[0]);
        assert(text::words(none) =~= words);
    } else {
        let rest = spaced(gaps.skip(1), words.skip(1));
        rest_keeps_apart(gaps, words);
        words_are_split(gaps.skip(1), words.skip(1));
        assert(solid(words[0]));
        word_is_taken(words[0], rest);
        gap_is_skipped(gaps[0], words[0] + rest);
        assert(gaps[0] + words[0] + rest =~= gaps[0] + (words[0] + rest));
        assert(seq![words[0]] + words.skip(1) =~= words);
    }
}

proof fn word_then_white(s: Seq<char>)
    ensures
        text::word_len(s) <= s.len(),
        solid(s.take(text::word_len(s) as int)),
        text::word_len(s) < s.len() ==> text::white_space(s[text::word_len(s) as int]),
    decreases s.len(),
{
    if s.len() > 0 && !text::white_space(s[0]) {
        word_then_white(s.skip(1));
        let n = text::word_len(s) as int;
        assert forall|i: int| 0 <= i < n implies !text::white_space(#[trigger] s.take(n)[i]) by {
            if i > 0 {
                assert(s.take(n)[i] == s.skip(1).take(n - 1)[i - 1]);
            }
        }
        if n < s.len() {
            assert(s[n] == s.skip(1)[n - 1]);
        }
    }
}

/// Every text is made up of its words and the white space around them: no word is empty or holds
/// white space, and nothing is lost.
pub proof fn words_make_up_the_text(s: Seq<char>) -> (gaps: Seq<Seq<char>>)
    ensures
        keeps_apart(gaps, text::words(s)),
        spaced(gaps, text::words(s)) == s,
    decreases s.len(),
{
    let words = text::words(s);
    if s.len() == 0 {
        let gaps = seq![s];
        assert(words =~= Seq::<Seq<char>>::empty());
        gaps
    } else if text::white_space(s[0]) {
        let inner = words_make_up_the_text(s.skip(1));
        let first = seq![s[0]] + inner[0];
        let gaps = inner.update(0, first);
        assert(blank(inner[0]));
        assert forall|i: int| 0 <= i < gaps.len() implies blank(#[trigger] gaps[i]) by {
            if i == 0 {
                assert forall|j: int| 0 <= j < first.len() implies text::white_space(
                    #[trigger] first[j],
                ) by {
                    if j > 0 {
                        assert(first[j] == inner[0][j - 1]);
                    }
                }
            } else {
                assert(gaps[i] == inner[i]);
            }
        }
        assert forall|i: int| 0 < i < words.len() implies (#[trigger] gaps[i]).len() > 0 by {
            assert(gaps[i] == inner[i]);
        }
        assert(gaps.skip(1) =~= inner.skip(1));
        assert(spaced(gaps, words) =~= seq![s[0]] + spaced(inner, words));
        assert(spaced(gaps, words) =~= s);
        gaps
    } else {
        word_then_white(s);
        let n = text::word_len(s) as int;
        let (word, rest) = (s.take(n), s.skip(n));
        assert(words =~= seq![word] + text::words(rest));
        let inner = words_make_up_the_text(rest);
        let gaps = seq![Seq::<char>::empty()] + inner;
        assert(gaps.skip(1) =~= inner);
        assert(words.skip(1) =~= text::words(rest));
        assert forall|i: int| 0 <= i < gaps.len() implies blank(#[trigger] gaps[i]) by {
            if i > 0 {
                assert(gaps[i] == inner[i - 1]);
            }
        }
        assert forall|i: int| 0 < i < words.len() implies (#[trigger] gaps[i]).len() > 0 by {
            assert(gaps[i] == inner[i - 1]);
            if i == 1 && inner[0].len() == 0 {
                let next = text::words(rest)[0];
                assert(solid(next));
                assert(spaced(inner, text::words(rest))[0] == next[0]);
                assert(rest[0] == s[n]);
            }
        }
        assert forall|i: int| 0 <= i < words.len() implies solid(#[trigger] words[i])
            && words[i].len() > 0 by {
            if i > 0 {
                assert(words[i] == text::words(rest)[i - 1]);
            }
        }
        assert(spaced(gaps, words) =~= s);
        gaps
    }
}

proof fn start_is_cut(s: Seq<char>) -> (i: int)
    ensures
        0 <= i <= s.len(),
        text::trim_start(s) == s.skip(i),
        blank(s.take(i)),
        i < s.len() ==> !text::white_space(s[i]),
    decreases s.len(),
{
    if s.len() > 0 && text::white_space(s[0]) {
        let k = start_is_cut(s.skip(1));
        assert(s.skip(1).skip(k) =~= s.skip(k + 1));
        assert forall|j: int| 0 <= j < k + 1 implies text::white_space(
            #[trigger] s.take(k + 1)[j],
        ) by {
            if j > 0 {
                assert(s.take(k + 1)[j] == s.skip(1).take(k)[j - 1]);
            }
        }
        k + 1
    } else {
        assert(s.skip(0) =~= s);
        0
    }
}

proof fn end_is_cut(s: Seq<char>) -> (j: int)
    ensures
        0 <= j <= s.len(),
        text::trim_end(s) == s.take(j),
        blank(s.skip(j)),
        j > 0 ==> !text::white_space(s[j - 1]),
    decreases s.len(),
{
    let n = s.len() as int;
    if n > 0 && text::white_space(s.last()) {
        let j = end_is_cut(s.drop_last());
        assert(s.drop_last().take(j) =~= s.take(j));
        assert forall|i: int| 0 <= i < n - j implies text::white_space(
            #[trigger] s.skip(j)[i],
        ) by {
            if i < n - j - 1 {
                assert(s.skip(j)[i] == s.drop_last().skip(j)[i]);
            }
        }
        j
    } else {
        assert(s.take(n) =~= s);
        n
    }
}

/// Trimming takes white space off both ends of a text, all of it, and nothing else.
pub proof fn trimmed_is_the_middle(s: Seq<char>) -> (ends: (Seq<char>, Seq<char>))
    ensures
        s == ends.0 + text::trimmed(s) + ends.1,
        blank(ends.0),
        blank(ends.1),
        text::trimmed(s).len() > 0 ==> !text::white_space(text::trimmed(s)[0])
            && !text::white_space(text::trimmed(s).last()),
{
    let i = start_is_cut(s);
    let front = s.skip(i);
    let j = end_is_cut(front);
    let t = text::trimmed(s);
    assert(t == front.take(j));
    let ends = (s.take(i), front.skip(j));
    assert(s =~= ends.0 + t + ends.1);
    if t.len() > 0 {
        assert(t[0] == s[i]);
        assert(t.last() == front[j - 1]);
    }
    ends
}

/// Trimming a text does not change its words.
pub proof fn trimming_keeps_words(s: Seq<char>)
    ensures
        text::words(text::trimmed(s)) == text::words(s),
{
    let (front, back) = trimmed_is_the_middle(s);
    let t = text::trimmed(s);
    gap_is_skipped(front, t + back);
    assert(s =~= front + (t + back));
    let words = text::words(t);
    let gaps = words_make_up_the_text(t);
    more_at_the_end(gaps, words, back);
    let n = words.len() as int;
    words_are_split(gaps.update(n, gaps[n] + back), words);
}

proof fn more_at_the_end(gaps: Seq<Seq<char>>, words: Seq<Seq<char>>, back: Seq<char>)
    requires
        keeps_apart(gaps, words),
        blank(back),
    ensures
        ({
            let n = words.len() as int;
            let more = gaps.update(n, gaps[n] + back);
            &&& keeps_apart(more, words)
            &&& spaced(more, words) == spaced(gaps, words) + back
        }),
    decreases words.len(),
{
    let n = words.len() as int;
    let last = gaps[n] + back;
    let more = gaps.update(n, last);
    assert(blank(gaps[n]));
    assert forall|i: int| 0 <= i < more.len() implies blank(#[trigger] more[i]) by {
        if i == n {
            assert forall|j: int| 0 <= j < last.len() implies text::white_space(
                #[trigger] last[j],
            ) by {
                if j < gaps[n].len() {
                    assert(last[j] == gaps[n][j]);
                } else {
                    assert(last[j] == back[j - gaps[n].len()]);
                }
            }
        } else {
            assert(more[i] == gaps[i]);
        }
    }
    assert forall|i: int| 0 < i < words.len() implies (#[trigger] more[i]).len() > 0 by {
        assert(more[i] == gaps[i]);
    }
    if n > 0 {
        rest_keeps_apart(gaps, words);
        more_at_the_end(gaps.skip(1), words.skip(1), back);
        let (g, w) = (gaps.skip(1), words.skip(1));
        assert(more.skip(1) =~= g.update(n - 1, g[n - 1] + back));
        assert(spaced(more, words) =~= spaced(gaps, words) + back);
    }
}

/// Joined texts stand one after the other, with the separator between each two and nowhere else.
pub proof fn joined_in_order(a: Seq<Seq<char>>, b: Seq<Seq<char>>, sep: Seq<char>, one: Seq<char>)
    ensures
        text::joined(Seq::empty(), sep) == Seq::<char>::empty(),
        text::joined(seq![one], sep) == one,
        a.len() > 0 && b.len() > 0 ==> text::joined(a + b, sep) == text::joined(a, sep) + sep
            + text::joined(b, sep),
    decreases b.len(),
{
    if a.len() > 0 && b.len() > 0 {
        let all = a + b;
        assert(all.drop_last() =~= a + b.drop_last());
        if b.len() == 1 {
            assert(a + b.drop_last() =~= a);
            assert(text::joined(b, sep) == b[0]);
        } else {
            joined_in_order(a, b.drop_last(), sep, one);
            assert(text::joined(all, sep) =~= text::joined(a, sep) + sep + text::joined(b, sep));
        }
    }
}

/// A number in decimal is made of digits that stand for the number, without a zero in front of
/// others.
pub proof fn decimal_has_no_leading_zero(n: nat)
    ensures
        text::decimal(n).len() > 0,
        text::number(text::decimal(n)) == n,
        forall|i: int|
            0 <= i < text::decimal(n).len() ==> '0' <= #[trigger] text::decimal(n)[i] <= '9',
        text::decimal(n).len() > 1 ==> text::decimal(n)[0] != '0',
        text::decimal(n)[0] == '0' ==> n == 0,
    decreases n,
{
    let s = text::decimal(n);
    if n < 10 {
        assert(s.drop_last() =~= Seq::<char>::empty());
        assert(text::number(s.drop_last()) == 0);
    } else {
        decimal_has_no_leading_zero(n / 10);
        assert(s.drop_last() =~= text::decimal(n / 10));
        assert(s[0] == text::decimal(n / 10)[0]);
    }
}

/// Making the letters of an ASCII text small changes `A` to `Z` only, each into the letter with the
/// same place in the alphabet.
pub proof fn only_capitals_change(s: Seq<char>, i: int)
    requires
        0 <= i < s.len(),
    ensures
        text::ascii_lowercase(s).len() == s.len(),
        'A' <= s[i] <= 'Z' ==> {
            let c = text::ascii_lowercase(s)[i];
            'a' <= c <= 'z' && c as u32 - 'a' as u32 == s[i] as u32 - 'A' as u32
        },
        !('A' <= s[i] <= 'Z') ==> text::ascii_lowercase(s)[i] == s[i],
{
}

} // verus!
