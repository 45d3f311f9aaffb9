//! What holds of what the user types.

use crate::terminal;
use crate::terminal::{Reading, TermView};
use crate::text;
use crate::wording;
use vstd::prelude::*;
use vstd::utf8::*;

verus! {

/// The bytes of a character other than a newline do not look like a newline.
proof fn scalar_without_newline(c: char)
    requires
        c != '\n',
    ensures
        forall|i: int|
            0 <= i < encode_scalar(c as u32).len() ==> (#[trigger] encode_scalar(c as u32)[i])
                != 10,
        encode_scalar(c as u32).len() > 0,
{
    let v = c as u32;
    assert(has_width_1_encoding(v) ==> leading_byte_width_1(v) != 10) by (bit_vector)
        requires
            v != 10,
    ;
    assert(leading_byte_width_2(v) != 10) by (bit_vector);
    assert(leading_byte_width_3(v) != 10) by (bit_vector);
    assert(leading_byte_width_4(v) != 10) by (bit_vector);
    assert(last_continuation_byte(v) != 10) by (bit_vector);
    assert(second_last_continuation_byte(v) != 10) by (bit_vector);
    assert(third_last_continuation_byte(v) != 10) by (bit_vector);
}

/// Whether a text holds no newline.
pub open spec fn one_line(s: Seq<char>) -> bool {
    forall|i: int| 0 <= i < s.len() ==> s[i] != '\n'
}

/// The bytes of a text without newlines do not look like newlines.
proof fn bytes_without_newline(s: Seq<char>)
    requires
        one_line(s),
    ensures
        forall|i: int| 0 <= i < encode_utf8(s).len() ==> (#[trigger] encode_utf8(s)[i]) != 10,
        s.len() > 0 ==> encode_utf8(s).len() > 0,
    decreases s.len(),
{
    if s.len() > 0 {
        scalar_without_newline(s[0]);
        bytes_without_newline(s.drop_first());
        let head = encode_scalar(s[0] as u32);
        assert forall|i: int| 0 <= i < encode_utf8(s).len() implies (#[trigger] encode_utf8(s)[i])
            != 10 by {
            if i < head.len() {
                assert(encode_utf8(s)[i] == head[i]);
            } else {
                assert(encode_utf8(s)[i] == encode_utf8(s.drop_first())[i - head.len()]);
            }
        }
    }
}

/// The byte of a newline.
proof fn newline_bytes()
    ensures
        encode_utf8(seq!['\n']) == seq![10u8],
{
    let s = seq!['\n'];
    assert(is_ascii_chars(s));
    is_ascii_chars_encode_utf8(s);
    assert(encode_utf8(s) =~= seq![10u8]);
}

/// What is left once white space is taken off the start starts with something else, and is made of
/// the same characters.
proof fn trim_start_part(s: Seq<char>)
    ensures
        one_line(s) ==> one_line(text::trim_start(s)),
        text::trim_start(s).len() > 0 ==> !text::white_space(text::trim_start(s)[0]),
        text::trim_start(s.push('\n')) == (if text::trim_start(s).len() > 0 {
            text::trim_start(s).push('\n')
        } else {
            Seq::empty()
        }),
    decreases s.len(),
{
    if s.len() > 0 && text::white_space(s[0]) {
        trim_start_part(s.skip(1));
        assert(s.push('\n').skip(1) =~= s.skip(1).push('\n'));
    } else if s.len() == 0 {
        assert(s.push('\n').skip(1) =~= Seq::empty());
        assert(text::trim_start(s.push('\n')) == text::trim_start(Seq::empty()));
    }
}

/// What is left once white space is taken off the end is made of the same characters, and nothing
/// is lost at the start unless all is.
proof fn trim_end_part(s: Seq<char>)
    ensures
        one_line(s) ==> one_line(text::trim_end(s)),
        s.len() > 0 && !text::white_space(s[0]) ==> text::trim_end(s).len() > 0,
    decreases s.len(),
{
    if s.len() > 0 && text::white_space(s.last()) {
        trim_end_part(s.drop_last());
    }
}

/// The newline at the end of a line is taken off with the rest of the white space.
proof fn newline_is_trimmed(s: Seq<char>)
    ensures
        text::trimmed(s.push('\n')) == text::trimmed(s),
        one_line(s) ==> one_line(text::trimmed(s)),
{
    trim_start_part(s);
    let t = text::trim_start(s);
    trim_end_part(t);
    assert(t.push('\n').drop_last() =~= t);
    if t.len() == 0 {
        assert(t =~= Seq::empty());
    }
}

/// Whether the input is as the search for the end of a line left it: what has been searched is
/// there and holds no newline.
pub open spec fn as_searched(term: TermView, b: Seq<u8>) -> bool {
    &&& term.idx <= b.len()
    &&& forall|j: int| 0 <= j < term.idx ==> b[j] != 10
}

/// Where no line ends from a place on, no newline stands there.
proof fn no_newline_at(b: Seq<u8>, from: int, j: int)
    requires
        forall|i: int| !terminal::first_newline(b, from, i),
        forall|i: int| 0 <= i < from ==> b[i] != 10,
        0 <= from,
        0 <= j < b.len(),
    ensures
        b[j] != 10,
    decreases j,
{
    if j >= from && b[j] == 10 {
        assert forall|i: int| from <= i < j implies b[i] != 10 by {
            no_newline_at(b, from, i);
        }
        assert(terminal::first_newline(b, from, j));
    }
}

/// The input stays as the search left it. Where more is needed all of it has been searched, and
/// after a line the search starts anew.
pub proof fn search_is_kept(term: TermView, b: Seq<u8>)
    requires
        as_searched(term, b),
    ensures
        ({
            let (r, t, left) = term.read(b);
            &&& as_searched(t, left)
            &&& t.idx == if r is NeedInput {
                left.len()
            } else {
                0
            }
        }),
    decreases b.len(),
{
    let from = term.idx as int;
    if exists|i: int| terminal::first_newline(b, from, i) {
        let end = choose|i: int| terminal::first_newline(b, from, i);
        let (line, rest) = (b.take(end + 1), b.skip(end + 1));
        if !valid_utf8(line) {
            search_is_kept(TermView { idx: 0, msg: term.msg + line, ..term }, rest);
        }
    } else {
        assert forall|j: int| 0 <= j < b.len() implies b[j] != 10 by {
            no_newline_at(b, from, j);
        }
    }
}

/// A line that has ended ends at the same place where more input follows.
proof fn line_end_stays(b: Seq<u8>, from: int, end: int, more: Seq<u8>)
    requires
        0 <= from,
        terminal::first_newline(b, from, end),
    ensures
        terminal::first_newline(b + more, from, end),
        forall|i: int| terminal::first_newline(b + more, from, i) ==> i == end,
        (b + more).take(end + 1) == b.take(end + 1),
        (b + more).skip(end + 1) == b.skip(end + 1) + more,
{
    let all = b + more;
    assert forall|j: int| from <= j < end implies all[j] != 10 by {
        assert(all[j] == b[j]);
    }
    assert(all[end] == 10);
    assert(all.take(end + 1) =~= b.take(end + 1));
    assert(all.skip(end + 1) =~= b.skip(end + 1) + more);
}

/// How far the input has been searched without finding the end of a line does not matter.
proof fn search_goes_on(term: TermView, b: Seq<u8>, from: nat)
    requires
        as_searched(term, b),
        as_searched(TermView { idx: from, ..term }, b),
    ensures
        (TermView { idx: from, ..term }).read(b) == term.read(b),
{
    let other = TermView { idx: from, ..term };
    assert forall|i: int|
        terminal::first_newline(b, from as int, i) <==> terminal::first_newline(
            b,
            term.idx as int,
            i,
        ) by {}
    if exists|i: int| terminal::first_newline(b, term.idx as int, i) {
        let end = choose|i: int| terminal::first_newline(b, term.idx as int, i);
        let same = choose|i: int| terminal::first_newline(b, from as int, i);
        assert(terminal::first_newline(b, from as int, end));
        assert(same == end);
    }
    assert(TermView { idx: 0, ..other } == TermView { idx: 0, ..term });
    assert(TermView { idx: b.len(), ..other } == TermView { idx: b.len(), ..term });
}

/// How the input arrives does not matter. What came of some input also comes of it where more
/// follows, which is then left; and where more was needed, reading on once it has arrived is the
/// same as reading all of it at once.
pub proof fn typing_in_pieces(term: TermView, b: Seq<u8>, more: Seq<u8>)
    requires
        as_searched(term, b),
    ensures
        ({
            let (r, t, left) = term.read(b);
            if r is NeedInput {
                t.read(left + more) == term.read(b + more)
            } else {
                term.read(b + more) == (r, t, left + more)
            }
        }),
    decreases b.len(),
{
    let from = term.idx as int;
    let all = b + more;
    if exists|i: int| terminal::first_newline(b, from, i) {
        let end = choose|i: int| terminal::first_newline(b, from, i);
        line_end_stays(b, from, end, more);
        let same = choose|i: int| terminal::first_newline(all, from, i);
        assert(same == end);
        let (line, rest) = (b.take(end + 1), b.skip(end + 1));
        if !valid_utf8(line) {
            typing_in_pieces(TermView { idx: 0, msg: term.msg + line, ..term }, rest, more);
        }
    } else {
        assert forall|j: int| 0 <= j < b.len() implies all[j] != 10 by {
            no_newline_at(b, from, j);
            assert(all[j] == b[j]);
        }
        search_goes_on(term, all, b.len());
    }
}

/// A line of text is read as that text, and what follows it is left.
proof fn line_is_read(term: TermView, line: Seq<char>, rest: Seq<u8>)
    requires
        term.idx <= encode_utf8(line).len(),
        one_line(line),
    ensures
        term.read(encode_utf8(line) + seq![10u8] + rest) == ({
            let (reading, after) = (TermView { idx: 0, ..term }).read_text(
                text::trimmed(line.push('\n')),
            );
            (reading, after, rest)
        }),
{
    let b = encode_utf8(line) + seq![10u8] + rest;
    let end = encode_utf8(line).len() as int;
    bytes_without_newline(line);
    assert forall|j: int| 0 <= j < end implies b[j] != 10 by {
        assert(b[j] == encode_utf8(line)[j]);
    }
    assert(terminal::first_newline(b, term.idx as int, end));
    let i = choose|i: int| terminal::first_newline(b, term.idx as int, i);
    assert(i == end);
    newline_bytes();
    text::encode_utf8_concat(line, seq!['\n']);
    assert(line + seq!['\n'] =~= line.push('\n'));
    assert(b.take(end + 1) =~= encode_utf8(line.push('\n')));
    assert(b.skip(end + 1) =~= rest);
    encode_utf8_valid_utf8(line.push('\n'));
    encode_utf8_decode_utf8(line.push('\n'));
}

/// An empty line adds a newline to the message.
proof fn return_is_read(term: TermView, rest: Seq<u8>)
    requires
        term.idx == 0,
    ensures
        term.read(seq![10u8] + rest) == ({
            let (reading, after) = term.read_text(Seq::empty());
            (reading, after, rest)
        }),
{
    let none = Seq::<char>::empty();
    line_is_read(term, none, rest);
    assert(encode_utf8(none) + seq![10u8] + rest =~= seq![10u8] + rest);
    assert(TermView { idx: 0, ..term } == term);
    let s = none.push('\n');
    assert(s.skip(1) =~= none);
    assert(text::trim_start(s) == text::trim_start(none));
}

/// A line that starts with a slash, white space aside, is a command. It leaves the message that is
/// being composed as it is. It does not matter how much of the line has been searched already.
pub proof fn slash_makes_a_command(term: TermView, line: Seq<char>, rest: Seq<u8>)
    requires
        term.idx <= encode_utf8(line).len(),
        one_line(line),
        text::trimmed(line).len() > 0,
        text::trimmed(line)[0] == '/',
    ensures
        term.read(encode_utf8(line) + seq![10u8] + rest) == (
            Reading::Command(text::trimmed(line)),
            TermView { idx: 0, ..term },
            rest,
        ),
{
    line_is_read(term, line, rest);
    newline_is_trimmed(line);
}

/// Three returns send a message. A line that is no command goes on with the message, a second
/// return goes on with it still, and the third sends what had been composed before, together with
/// the line, without the three newlines. Then nothing is left of the message. It does not matter
/// how much of the line has been searched already.
///
/// Where the line is blank and a newline stands before it, that newline counts too, and the message
/// is sent sooner.
pub proof fn three_returns_send(term: TermView, line: Seq<char>, rest: Seq<u8>)
    requires
        term.idx <= encode_utf8(line).len(),
        one_line(line),
        text::trimmed(line).len() > 0 ==> text::trimmed(line)[0] != '/',
        text::trimmed(line).len() == 0 && term.msg.len() > 0 ==> term.msg.last() != 10,
    ensures
        ({
            let (r1, t1, b1) = term.read(encode_utf8(line) + seq![10u8, 10u8, 10u8] + rest);
            let (r2, t2, b2) = t1.read(b1);
            let (r3, t3, b3) = t2.read(b2);
            &&& r1 == Reading::Caret
            &&& r2 == Reading::Caret
            &&& r3 == Reading::Transmit(term.msg + encode_utf8(text::trimmed(line)))
            &&& t3 == (TermView { idx: 0, msg: Seq::empty(), ..term })
            &&& b3 == rest
        }),
{
    let typed = encode_utf8(text::trimmed(line));
    let two = seq![10u8] + (seq![10u8] + rest);
    assert(encode_utf8(line) + seq![10u8, 10u8, 10u8] + rest =~= encode_utf8(line) + seq![10u8]
        + two);
    line_is_read(term, line, two);
    newline_is_trimmed(line);
    bytes_without_newline(text::trimmed(line));
    let m0 = term.msg + typed;
    assert(m0.len() > 0 ==> m0.last() != 10) by {
        if typed.len() > 0 {
            assert(m0.last() == typed[typed.len() - 1]);
        } else {
            assert(m0 =~= term.msg);
        }
    }
    let m1 = m0 + seq![10u8];
    assert(m1 =~= m0.push(10u8));
    let t1 = TermView { idx: 0, msg: m1, ..term };
    assert(term.read(encode_utf8(line) + seq![10u8] + two) == (Reading::Caret, t1, two));

    return_is_read(t1, seq![10u8] + rest);
    let none = encode_utf8(Seq::<char>::empty());
    let m2 = m1 + none + seq![10u8];
    assert(m2 =~= m1.push(10u8));
    let t2 = TermView { idx: 0, msg: m2, ..term };
    assert(t1.read(two) == (Reading::Caret, t2, seq![10u8] + rest));

    return_is_read(t2, rest);
    let m3 = m2 + none + seq![10u8];
    assert(m3 =~= m2.push(10u8));
    assert(terminal::is_ended(m3));
    assert(m3.take(m3.len() - 3) =~= m0);
}

/// A line of text that is no command goes on with the message: the line is added, without the white
/// space around it, and a newline.
pub proof fn text_line_is_added(term: TermView, line: Seq<char>, rest: Seq<u8>)
    requires
        term.idx <= encode_utf8(line).len(),
        one_line(line),
        text::trimmed(line).len() > 0,
        text::trimmed(line)[0] != '/',
    ensures
        term.read(encode_utf8(line) + seq![10u8] + rest) == (
            Reading::Caret,
            TermView {
                idx: 0,
                msg: term.msg + encode_utf8(text::trimmed(line)) + seq![10u8],
                ..term
            },
            rest,
        ),
{
    line_is_read(term, line, rest);
    newline_is_trimmed(line);
    bytes_without_newline(text::trimmed(line));
    let typed = encode_utf8(text::trimmed(line));
    let msg = term.msg + typed + seq![10u8];
    assert(msg[msg.len() - 2] == typed[typed.len() - 1]);
    assert(!terminal::is_ended(msg));
}

/// A blank line adds a newline to the message. If two newlines stood at its end already, the
/// message is sent without them, and a new one begins.
pub proof fn blank_line_is_counted(term: TermView, line: Seq<char>, rest: Seq<u8>)
    requires
        term.idx <= encode_utf8(line).len(),
        one_line(line),
        text::trimmed(line).len() == 0,
    ensures
        ({
            let n = term.msg.len() as int;
            let got = term.read(encode_utf8(line) + seq![10u8] + rest);
            if n >= 2 && term.msg[n - 1] == 10 && term.msg[n - 2] == 10 {
                got == (
                    Reading::Transmit(term.msg.take(n - 2)),
                    TermView { idx: 0, msg: Seq::empty(), ..term },
                    rest,
                )
            } else {
                got == (
                    Reading::Caret,
                    TermView { idx: 0, msg: term.msg.push(10u8), ..term },
                    rest,
                )
            }
        }),
{
    line_is_read(term, line, rest);
    newline_is_trimmed(line);
    let none = text::trimmed(line);
    let n = term.msg.len() as int;
    let msg = term.msg + encode_utf8(none) + seq![10u8];
    assert(encode_utf8(none).len() == 0);
    assert(msg =~= term.msg.push(10u8));
    if terminal::is_ended(msg) {
        assert(msg[n - 1] == term.msg[n - 1] && msg[n - 2] == term.msg[n - 2]);
        assert(msg.take(msg.len() - 3) =~= term.msg.take(n - 2));
    } else if n >= 2 {
        assert(msg[n - 1] == term.msg[n - 1] && msg[n - 2] == term.msg[n - 2]);
    }
}

/// A line that is not text belongs to the message as it is, and reading goes on behind it.
pub proof fn other_lines_are_kept(term: TermView, line: Seq<u8>, rest: Seq<u8>)
    requires
        term.idx <= line.len(),
        forall|i: int| 0 <= i < line.len() ==> line[i] != 10,
        !valid_utf8(line.push(10u8)),
    ensures
        term.read(line.push(10u8) + rest) == (TermView {
            idx: 0,
            msg: term.msg + line.push(10u8),
            ..term
        }).read(rest),
{
    let b = line.push(10u8) + rest;
    let end = line.len() as int;
    assert forall|j: int| 0 <= j < end implies b[j] != 10 by {
        assert(b[j] == line[j]);
    }
    assert(terminal::first_newline(b, term.idx as int, end));
    let i = choose|i: int| terminal::first_newline(b, term.idx as int, i);
    assert(i == end);
    assert(b.take(end + 1) =~= line.push(10u8));
    assert(b.skip(end + 1) =~= rest);
}

/// While a line has not ended nothing is taken, and nothing changes but how far has been searched.
pub proof fn unended_line_waits(term: TermView, b: Seq<u8>)
    requires
        forall|i: int| 0 <= i < b.len() ==> b[i] != 10,
    ensures
        term.read(b) == (Reading::NeedInput, TermView { idx: b.len(), ..term }, b),
{
}

/// A command line is a command with exactly the words that were typed, whatever white space stands
/// around them.
pub proof fn typed_words_make_a_command(
    term: TermView,
    gaps: Seq<Seq<char>>,
    words: Seq<Seq<char>>,
    rest: Seq<u8>,
) -> (line: Seq<char>)
    requires
        wording::keeps_apart(gaps, words),
        words.len() > 0,
        words[0][0] == '/',
        one_line(wording::spaced(gaps, words)),
        term.idx <= encode_utf8(wording::spaced(gaps, words)).len(),
    ensures
        term.read(encode_utf8(wording::spaced(gaps, words)) + seq![10u8] + rest) == (
            Reading::Command(line),
            TermView { idx: 0, ..term },
            rest,
        ),
        text::words(line) == words,
        line == text::trimmed(wording::spaced(gaps, words)),
{
    let typed = wording::spaced(gaps, words);
    let line = text::trimmed(typed);
    wording::words_are_split(gaps, words);
    wording::trimming_keeps_words(typed);
    let (front, back) = wording::trimmed_is_the_middle(typed);
    let inner = wording::words_make_up_the_text(line);
    assert(text::words(line) == words);
    assert(wording::spaced(inner, words) == line);
    assert(line.len() > 0) by {
        assert(words[0].len() > 0);
    }
    assert(wording::blank(inner[0]));
    assert(inner[0].len() == 0) by {
        if inner[0].len() > 0 {
            assert(line[0] == inner[0][0]);
        }
    }
    assert(line[0] == words[0][0]);
    slash_makes_a_command(term, typed, rest);
    line
}

} // verus!
