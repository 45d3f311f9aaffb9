//! What holds of messages that are written into a stream of bytes and read out of it.

use crate::addr::AddrView;
use crate::codec;
use crate::codec::{CodecView, ParseState, Step};
use crate::message;
use crate::message::{MessageView, HDR_0, HDR_1};
use crate::text;
use crate::wire;
use vstd::prelude::*;

verus! {

/// Whether a message can be written and read back: its sender and recipients are text, and its
/// fields are not too long for their lengths to be written.
pub open spec fn writable(m: MessageView) -> bool {
    &&& vstd::utf8::valid_utf8(m.from)
    &&& vstd::utf8::valid_utf8(m.to)
    &&& m.from.len() <= u32::MAX
    &&& m.to.len() <= u32::MAX
    &&& m.content.len() <= u32::MAX
}

/// Whether the header stands nowhere in some bytes.
pub open spec fn headless(b: Seq<u8>) -> bool {
    forall|i: int| !codec::header_at(b, i)
}

/// A part that was read is read the same where more bytes follow.
proof fn step_extends(c: CodecView, b: Seq<u8>, more: Seq<u8>)
    ensures
        match c.step(b) {
            Step::Wait => true,
            Step::Next(next, rest) => c.step(b + more) == Step::Next(next, rest + more),
            Step::Fail(e, rest) => c.step(b + more) == Step::Fail(e, rest + more),
            Step::Complete(m) => c.step(b + more) == Step::Complete(m),
        },
{
    let all = b + more;
    match c.state {
        ParseState::Init => {
            if exists|i: int| codec::first_header_at(b, i) {
                let i = choose|i: int| codec::first_header_at(b, i);
                assert forall|j: int| j < i implies !codec::header_at(all, j) by {
                    assert(!codec::header_at(b, j));
                }
                assert(codec::first_header_at(all, i));
                let k = choose|k: int| codec::first_header_at(all, k);
                assert(k == i);
                assert(all.skip(i + 2) =~= b.skip(i + 2) + more);
            }
        },
        ParseState::Typ | ParseState::MsgNum => {
            if b.len() >= 1 {
                assert(all.skip(1) =~= b.skip(1) + more);
            }
        },
        ParseState::From | ParseState::To | ParseState::Content => {
            if codec::field_arrived(b) {
                assert(all.take(4) =~= b.take(4));
                assert(codec::field_bytes(all) =~= codec::field_bytes(b));
                assert(codec::after_field(all) =~= codec::after_field(b) + more);
            }
        },
        ParseState::CRC => {
            if b.len() >= 4 {
                assert(all.take(4) =~= b.take(4));
                assert(all.skip(4) =~= b.skip(4) + more);
            }
        },
        ParseState::Done => {},
    }
}

/// How the bytes arrive does not matter. What came of some bytes also comes of them where more
/// follow, which are then left; and where bytes were missing, reading on once more have arrived is
/// the same as reading all of them at once.
pub proof fn arrival_does_not_matter(c: CodecView, b: Seq<u8>, more: Seq<u8>)
    ensures
        ({
            let (r, c1, left) = c.decode(b);
            if r is Some {
                c.decode(b + more) == (r, c1, left + more)
            } else {
                c1.decode(left + more) == c.decode(b + more)
            }
        }),
    decreases c.parts_left(),
{
    step_extends(c, b, more);
    match c.step(b) {
        Step::Next(next, rest) => {
            arrival_does_not_matter(next, rest, more);
        },
        _ => {},
    }
}

/// After a message and after a failure the codec starts afresh; while bytes are missing it stays
/// where it is. It always reads from the same address.
pub proof fn starts_afresh(c: CodecView, b: Seq<u8>)
    ensures
        c.decode(b).1.addr == c.addr,
        c.decode(b).0 is Some ==> c.decode(b).1 == CodecView::fresh(c.addr),
        c.decode(b).0 is None ==> c.decode(b).1.step(c.decode(b).2) == Step::Wait,
    decreases c.parts_left(),
{
    match c.step(b) {
        Step::Next(next, rest) => {
            starts_afresh(next, rest);
        },
        _ => {},
    }
}

/// What is left is the end of what was there: bytes are taken from the front only.
pub proof fn leaves_the_end(c: CodecView, b: Seq<u8>)
    ensures
        c.decode(b).2.len() <= b.len(),
        c.decode(b).2 == b.skip(b.len() - c.decode(b).2.len()),
    decreases c.parts_left(),
{
    assert(b.skip(0) =~= b);
    match c.step(b) {
        Step::Next(next, rest) => {
            step_leaves_the_end(c, b);
            leaves_the_end(next, rest);
            let left = c.decode(b).2;
            assert(left =~= b.skip(b.len() - left.len()));
        },
        Step::Fail(_, _) => {
            step_leaves_the_end(c, b);
        },
        _ => {},
    }
}

proof fn step_leaves_the_end(c: CodecView, b: Seq<u8>)
    ensures
        match c.step(b) {
            Step::Next(_, rest) | Step::Fail(_, rest) => rest.len() <= b.len() && rest == b.skip(
                b.len() - rest.len(),
            ),
            _ => true,
        },
{
    assert(b.skip(0) =~= b);
    match c.state {
        ParseState::Init => {
            if exists|i: int| codec::first_header_at(b, i) {
                let i = choose|i: int| codec::first_header_at(b, i);
                assert(b.skip(i + 2).len() == b.len() - (i + 2));
            }
        },
        _ => {},
    }
}

/// A field that was written arrives as it was.
proof fn field_round_trip(f: Seq<u8>, rest: Seq<u8>)
    requires
        f.len() <= u32::MAX,
    ensures
        codec::field_arrived(message::field(f) + rest),
        codec::field_bytes(message::field(f) + rest) == f,
        codec::after_field(message::field(f) + rest) == rest,
{
    let b = message::field(f) + rest;
    let n = message::len32(f.len());
    assert(n == f.len());
    wire::be_round_trip(n);
    assert(b.take(4) =~= wire::be_bytes(n));
    assert(codec::field_bytes(b) =~= f);
    assert(codec::after_field(b) =~= rest);
}

/// Bytes in which no header stands are skipped, and so is the header behind them.
proof fn header_read(c: CodecView, junk: Seq<u8>, rest: Seq<u8>)
    requires
        c.state is Init,
        headless(junk),
    ensures
        c.decode(junk + seq![HDR_0, HDR_1] + rest) == (CodecView {
            state: ParseState::Typ,
            ..c
        }).decode(rest),
{
    let all = junk + seq![HDR_0, HDR_1] + rest;
    let i = junk.len() as int;
    assert forall|j: int| j < i implies !codec::header_at(all, j) by {
        assert(!codec::header_at(junk, j));
    }
    assert(codec::first_header_at(all, i));
    let k = choose|k: int| codec::first_header_at(all, k);
    assert(k == i);
    assert(all.skip(i + 2) =~= rest);
    assert(c.step(all) == Step::Next(CodecView { state: ParseState::Typ, ..c }, rest));
}

/// The message type and the message number are read as they were written.
proof fn numbers_read(c: CodecView, typ: message::MsgTyp, msgnum: u8, rest: Seq<u8>)
    requires
        c.state is Typ,
    ensures
        c.decode(seq![message::typ_code(typ), msgnum] + rest) == (CodecView {
            state: ParseState::From,
            typ,
            msgnum,
            ..c
        }).decode(rest),
{
    let b0 = seq![message::typ_code(typ), msgnum] + rest;
    let b1 = seq![msgnum] + rest;
    message::codes_are_inverse(typ, b0[0]);
    assert(b0.skip(1) =~= b1);
    assert(b1.skip(1) =~= rest);
    let c1 = CodecView { state: ParseState::MsgNum, typ, ..c };
    let c2 = CodecView { state: ParseState::From, msgnum, ..c1 };
    assert(c.step(b0) == Step::Next(c1, b1));
    assert(c1.step(b1) == Step::Next(c2, rest));
    assert(c1.decode(b1) == c2.decode(rest));
}

/// The fields are read as they were written.
proof fn fields_read(c: CodecView, m: MessageView, rest: Seq<u8>)
    requires
        c.state is From,
        writable(m),
    ensures
        c.decode(
            message::field(m.from) + (message::field(m.to) + (message::field(m.content) + rest)),
        ) == (CodecView {
            state: ParseState::CRC,
            from: m.from,
            to: m.to,
            content: m.content,
            ..c
        }).decode(rest),
{
    let b3 = message::field(m.content) + rest;
    let b2 = message::field(m.to) + b3;
    let b1 = message::field(m.from) + b2;
    field_round_trip(m.from, b2);
    field_round_trip(m.to, b3);
    field_round_trip(m.content, rest);
    let c1 = CodecView { state: ParseState::To, from: m.from, ..c };
    let c2 = CodecView { state: ParseState::Content, to: m.to, ..c1 };
    let c3 = CodecView { state: ParseState::CRC, content: m.content, ..c2 };
    assert(c.step(b1) == Step::Next(c1, b2));
    assert(c1.step(b2) == Step::Next(c2, b3));
    assert(c2.step(b3) == Step::Next(c3, rest));
    assert(c1.decode(b2) == c2.decode(b3));
    assert(c2.decode(b3) == c3.decode(rest));
}

/// The checksum is read as it was written, and held against that of the message.
proof fn checksum_read(c: CodecView, m: MessageView, crc: u32, rest: Seq<u8>)
    requires
        c.state is CRC,
        c.typ == m.typ,
        c.msgnum == m.msgnum,
        c.from == m.from,
        c.to == m.to,
        c.content == m.content,
    ensures
        c.decode(wire::be_bytes(crc) + rest) == (
            Some(
                if crc == m.sealed().crc {
                    Ok(m.sealed())
                } else {
                    Err("CRC check failed"@)
                },
            ),
            CodecView::fresh(c.addr),
            rest,
        ),
{
    let b = wire::be_bytes(crc) + rest;
    wire::be_round_trip(crc);
    assert(b.take(4) =~= wire::be_bytes(crc));
    assert(b.skip(4) =~= rest);
    let done = CodecView { state: ParseState::Done, crc, ..c };
    assert(c.step(b) == Step::Next(done, rest));
    assert(done.assembled().raw() == m.raw());
    assert(done.assembled() == m.sealed());
    assert(c.decode(b) == done.decode(rest));
}

/// What comes of a message whose bytes stand behind other bytes, with some checksum: the message,
/// where the checksum is that of its bytes, and else a failure. Either way the bytes before the
/// message are skipped and those behind it are left.
proof fn frame_read(addr: AddrView, junk: Seq<u8>, m: MessageView, crc: u32, rest: Seq<u8>)
    requires
        writable(m),
        headless(junk),
    ensures
        CodecView::fresh(addr).decode(junk + m.raw() + wire::be_bytes(crc) + rest) == (
            Some(
                if crc == m.sealed().crc {
                    Ok(m.sealed())
                } else {
                    Err("CRC check failed"@)
                },
            ),
            CodecView::fresh(addr),
            rest,
        ),
{
    let tail = wire::be_bytes(crc) + rest;
    let fields = message::field(m.from) + (message::field(m.to) + (message::field(m.content)
        + tail));
    let all = junk + m.raw() + wire::be_bytes(crc) + rest;
    assert(all =~= junk + seq![HDR_0, HDR_1] + (seq![message::typ_code(m.typ), m.msgnum] + fields));
    header_read(
        CodecView::fresh(addr),
        junk,
        seq![message::typ_code(m.typ), m.msgnum] + fields,
    );
    let c1 = CodecView { state: ParseState::Typ, ..CodecView::fresh(addr) };
    numbers_read(c1, m.typ, m.msgnum, fields);
    let c2 = CodecView { state: ParseState::From, typ: m.typ, msgnum: m.msgnum, ..c1 };
    fields_read(c2, m, tail);
    let c3 = CodecView {
        state: ParseState::CRC,
        from: m.from,
        to: m.to,
        content: m.content,
        ..c2
    };
    checksum_read(c3, m, crc, rest);
}

/// A message that is written is read back, with the checksum of its bytes. Bytes in front of it in
/// which no header stands are skipped, and bytes behind it are left.
pub proof fn round_trip(addr: AddrView, junk: Seq<u8>, m: MessageView, rest: Seq<u8>)
    requires
        writable(m),
        headless(junk),
    ensures
        CodecView::fresh(addr).decode(junk + m.frame() + rest) == (
            Some(Ok::<MessageView, Seq<char>>(m.sealed())),
            CodecView::fresh(addr),
            rest,
        ),
{
    frame_read(addr, junk, m, m.sealed().crc, rest);
    assert(junk + m.frame() + rest =~= junk + m.raw() + wire::be_bytes(m.sealed().crc) + rest);
}

/// A message with any other checksum than that of its bytes is refused, and the bytes behind it are
/// left.
pub proof fn wrong_checksum_is_refused(
    addr: AddrView,
    junk: Seq<u8>,
    m: MessageView,
    crc: u32,
    rest: Seq<u8>,
)
    requires
        writable(m),
        headless(junk),
        crc != wire::checksum(m.raw()),
    ensures
        CodecView::fresh(addr).decode(junk + m.raw() + wire::be_bytes(crc) + rest) == (
            Some(Err::<MessageView, Seq<char>>("CRC check failed"@)),
            CodecView::fresh(addr),
            rest,
        ),
{
    frame_read(addr, junk, m, crc, rest);
}

/// A message of which one byte of the content was changed on its way is refused.
pub proof fn changed_content_is_refused(
    addr: AddrView,
    junk: Seq<u8>,
    m: MessageView,
    i: int,
    byte: u8,
    rest: Seq<u8>,
)
    requires
        writable(m),
        headless(junk),
        0 <= i < m.content.len(),
        m.content[i] != byte,
    ensures
        ({
            let place = m.raw().len() - m.content.len() + i;
            CodecView::fresh(addr).decode(junk + m.frame().update(place, byte) + rest) == (
                Some(Err::<MessageView, Seq<char>>("CRC check failed"@)),
                CodecView::fresh(addr),
                rest,
            )
        }),
{
    let place = m.raw().len() - m.content.len() + i;
    let changed = MessageView { content: m.content.update(i, byte), ..m };
    let crc = wire::checksum(m.raw());
    assert(changed.raw() =~= m.raw().update(place, byte));
    wire::changed_byte_shows(m.raw(), place, byte);
    wrong_checksum_is_refused(addr, junk, changed, crc, rest);
    assert(junk + m.frame().update(place, byte) + rest =~= junk + changed.raw() + wire::be_bytes(
        crc,
    ) + rest);
}

/// A message that arrives in two pieces is read once the second piece is there, and not before.
pub proof fn pieces_make_a_message(addr: AddrView, m: MessageView, k: int)
    requires
        writable(m),
        0 <= k < m.frame().len(),
    ensures
        ({
            let (r, c, left) = CodecView::fresh(addr).decode(m.frame().take(k));
            &&& r is None
            &&& c.decode(left + m.frame().skip(k)) == (
                Some(Ok::<MessageView, Seq<char>>(m.sealed())),
                CodecView::fresh(addr),
                Seq::<u8>::empty(),
            )
        }),
{
    let (a, b) = (m.frame().take(k), m.frame().skip(k));
    let none = Seq::<u8>::empty();
    round_trip(addr, none, m, none);
    assert(none + m.frame() + none =~= m.frame());
    assert(a + b =~= m.frame());
    arrival_does_not_matter(CodecView::fresh(addr), a, b);
    let (r, c, left) = CodecView::fresh(addr).decode(a);
    if r is Some {
        assert((left + b).len() == 0);
    }
}

/// The bytes, from the header on, whose parts a codec holds.
pub open spec fn taken(c: CodecView) -> Seq<u8> {
    let head = seq![HDR_0, HDR_1];
    let code = seq![message::typ_code(c.typ)];
    let num = seq![c.msgnum];
    match c.state {
        ParseState::Init => Seq::empty(),
        ParseState::Typ => head,
        ParseState::MsgNum => head + code,
        ParseState::From => head + code + num,
        ParseState::To => head + code + num + message::field(c.from),
        ParseState::Content => head + code + num + message::field(c.from) + message::field(c.to),
        ParseState::CRC => head + code + num + message::field(c.from) + message::field(c.to)
            + message::field(c.content),
        ParseState::Done => head + code + num + message::field(c.from) + message::field(c.to)
            + message::field(c.content) + wire::be_bytes(c.crc),
    }
}

/// A field that arrived is the field that was written.
proof fn field_was_written(b: Seq<u8>)
    requires
        codec::field_arrived(b),
    ensures
        message::field(codec::field_bytes(b)) + codec::after_field(b) == b,
{
    let n = wire::be_u32(b.take(4));
    assert(codec::field_bytes(b).len() == n);
    assert(message::len32(codec::field_bytes(b).len()) == n);
    wire::be_bytes_round_trip(b.take(4));
    assert(message::field(codec::field_bytes(b)) + codec::after_field(b) =~= b);
}

/// It does not matter how pieces are grouped.
proof fn regroup(a: Seq<u8>, b: Seq<u8>, c: Seq<u8>)
    ensures
        (a + b) + c == a + (b + c),
{
    assert((a + b) + c =~= a + (b + c));
}

/// The bytes of the part that a codec has just read.
spec fn last_part(c: CodecView) -> Seq<u8> {
    match c.state {
        ParseState::Init => Seq::empty(),
        ParseState::Typ => seq![HDR_0, HDR_1],
        ParseState::MsgNum => seq![message::typ_code(c.typ)],
        ParseState::From => seq![c.msgnum],
        ParseState::To => message::field(c.from),
        ParseState::Content => message::field(c.to),
        ParseState::CRC => message::field(c.content),
        ParseState::Done => wire::be_bytes(c.crc),
    }
}

/// What is read as a part is that part as it is written.
proof fn part_was_written(c: CodecView, b: Seq<u8>)
    requires
        !(c.state is Init),
    ensures
        c.step(b) matches Step::Next(next, rest) ==> last_part(next) + rest == b,
{
    match c.state {
        ParseState::Typ => {
            if b.len() >= 1 {
                message::codes_are_inverse(c.typ, b[0]);
                assert(seq![b[0]] + b.skip(1) =~= b);
            }
        },
        ParseState::MsgNum => {
            if b.len() >= 1 {
                assert(seq![b[0]] + b.skip(1) =~= b);
            }
        },
        ParseState::From | ParseState::To | ParseState::Content => {
            if codec::field_arrived(b) {
                field_was_written(b);
            }
        },
        ParseState::CRC => {
            if b.len() >= 4 {
                wire::be_bytes_round_trip(b.take(4));
                assert(b.take(4) + b.skip(4) =~= b);
            }
        },
        _ => {},
    }
}

/// No byte is lost in reading a part.
proof fn step_takes(c: CodecView, b: Seq<u8>)
    requires
        !(c.state is Init),
    ensures
        c.step(b) matches Step::Next(next, rest) ==> !(next.state is Init) && taken(next) + rest
            == taken(c) + b,
        c.step(b) matches Step::Complete(m) ==> taken(c) == m.frame(),
{
    part_was_written(c, b);
    match c.step(b) {
        Step::Next(next, rest) => {
            assert(taken(next) == taken(c) + last_part(next));
            regroup(taken(c), last_part(next), rest);
        },
        Step::Complete(m) => {
            assert(m.raw() == (MessageView { crc: 0, ..m }).raw());
            assert(seq![HDR_0, HDR_1] + seq![message::typ_code(c.typ)] + seq![c.msgnum] =~= seq![
                HDR_0,
                HDR_1,
                message::typ_code(m.typ),
                m.msgnum,
            ]);
        },
        _ => {},
    }
}

proof fn delivered_from(c: CodecView, b: Seq<u8>)
    requires
        !(c.state is Init),
    ensures
        c.decode(b).0 matches Some(Ok(m)) ==> taken(c) + b == m.frame() + c.decode(b).2,
    decreases c.parts_left(),
{
    step_takes(c, b);
    match c.step(b) {
        Step::Next(next, rest) => {
            delivered_from(next, rest);
        },
        _ => {},
    }
}

/// A message is delivered only where its very bytes, checksum included, stand at the first header.
/// Exactly the bytes behind them are left.
pub proof fn delivered_was_written(addr: AddrView, b: Seq<u8>)
    ensures
        CodecView::fresh(addr).decode(b).0 matches Some(Ok(m)) ==> exists|i: int|
            codec::first_header_at(b, i) && b.skip(i) == m.frame() + CodecView::fresh(
                addr,
            ).decode(b).2,
{
    let c = CodecView::fresh(addr);
    match c.step(b) {
        Step::Next(next, rest) => {
            let i = choose|i: int| codec::first_header_at(b, i);
            delivered_from(next, rest);
            assert(b.skip(i) =~= taken(next) + rest);
        },
        _ => {},
    }
}

/// Whether what a codec holds can have been read: the sender and the recipients are text, and no
/// field is longer than its length can say.
pub open spec fn sound(c: CodecView) -> bool {
    &&& vstd::utf8::valid_utf8(c.from)
    &&& vstd::utf8::valid_utf8(c.to)
    &&& c.from.len() <= u32::MAX
    &&& c.to.len() <= u32::MAX
    &&& c.content.len() <= u32::MAX
}

/// What a codec holds stays sound, and so are the messages that it delivers: they carry the
/// checksum of their bytes and could be written and read back.
pub proof fn delivers_sound_messages(c: CodecView, b: Seq<u8>)
    requires
        sound(c),
    ensures
        sound(c.decode(b).1),
        c.decode(b).0 matches Some(Ok(m)) ==> writable(m) && m == m.sealed(),
    decreases c.parts_left(),
{
    fresh_is_sound(c.addr);
    match c.step(b) {
        Step::Next(next, rest) => {
            delivers_sound_messages(next, rest);
        },
        Step::Complete(m) => {
            assert(m.raw() == (MessageView { crc: 0, ..m }).raw());
        },
        _ => {},
    }
}

/// A codec that has read nothing is sound.
pub proof fn fresh_is_sound(addr: AddrView)
    ensures
        sound(CodecView::fresh(addr)),
{
}

/// A field stands behind its length.
proof fn field_stands(pre: Seq<u8>, f: Seq<u8>, post: Seq<u8>)
    requires
        f.len() <= u32::MAX,
    ensures
        ({
            let (b, at) = (pre + message::field(f) + post, pre.len() as int);
            &&& wire::be_u32(b.subrange(at, at + 4)) == f.len()
            &&& b.subrange(at + 4, at + 4 + f.len()) == f
        }),
{
    let (b, at) = (pre + message::field(f) + post, pre.len() as int);
    wire::be_round_trip(message::len32(f.len()));
    assert(b.subrange(at, at + 4) =~= wire::be_bytes(message::len32(f.len())));
    assert(b.subrange(at + 4, at + 4 + f.len()) =~= f);
}

/// The checksum stands behind the rest.
proof fn checksum_stands(b: Seq<u8>)
    ensures
        ({
            let f = b + wire::be_bytes(wire::checksum(b));
            &&& f.len() == b.len() + 4
            &&& f.take(b.len() as int) == b
            &&& wire::be_u32(f.skip(b.len() as int)) == wire::checksum(b)
        }),
{
    let f = b + wire::be_bytes(wire::checksum(b));
    wire::be_round_trip(wire::checksum(b));
    assert(f.take(b.len() as int) =~= b);
    assert(f.skip(b.len() as int) =~= wire::be_bytes(wire::checksum(b)));
}

proof fn head_stands(m: MessageView)
    ensures
        m.raw().len() == 16 + m.from.len() + m.to.len() + m.content.len(),
        m.raw()[0] == 0xaa,
        m.raw()[1] == 0x55,
        m.raw()[2] == message::typ_code(m.typ),
        m.raw()[3] == m.msgnum,
{
}

proof fn sender_stands(m: MessageView)
    requires
        m.from.len() <= u32::MAX,
    ensures
        ({
            let at = 4int;
            &&& wire::be_u32(m.raw().subrange(at, at + 4)) == m.from.len()
            &&& m.raw().subrange(at + 4, at + 4 + m.from.len()) == m.from
        }),
{
    let head = seq![HDR_0, HDR_1, message::typ_code(m.typ), m.msgnum];
    let pre = head;
    let post = message::field(m.to) + message::field(m.content);
    field_stands(pre, m.from, post);
    assert(pre.len() == 4int);
    assert(pre + message::field(m.from) + post =~= m.raw());
}

proof fn recipients_stand(m: MessageView)
    requires
        m.to.len() <= u32::MAX,
    ensures
        ({
            let at = 8 + m.from.len() as int;
            &&& wire::be_u32(m.raw().subrange(at, at + 4)) == m.to.len()
            &&& m.raw().subrange(at + 4, at + 4 + m.to.len()) == m.to
        }),
{
    let head = seq![HDR_0, HDR_1, message::typ_code(m.typ), m.msgnum];
    let pre = head + message::field(m.from);
    let post = message::field(m.content);
    field_stands(pre, m.to, post);
    assert(pre.len() == 8 + m.from.len() as int);
    assert(pre + message::field(m.to) + post =~= m.raw());
}

proof fn content_stands(m: MessageView)
    requires
        m.content.len() <= u32::MAX,
    ensures
        ({
            let at = 12 + m.from.len() + m.to.len() as int;
            &&& wire::be_u32(m.raw().subrange(at, at + 4)) == m.content.len()
            &&& m.raw().subrange(at + 4, at + 4 + m.content.len()) == m.content
        }),
{
    let head = seq![HDR_0, HDR_1, message::typ_code(m.typ), m.msgnum];
    let pre = head + message::field(m.from) + message::field(m.to);
    let post = Seq::<u8>::empty();
    field_stands(pre, m.content, post);
    assert(pre.len() == 12 + m.from.len() + m.to.len() as int);
    assert(pre + message::field(m.content) + post =~= m.raw());
}

/// Where each part of a message stands in its bytes: the header, the type and the number, then the
/// sender, the recipients and the content, each behind its length, and in the end the checksum.
pub proof fn parts_stand_in_order(m: MessageView)
    requires
        m.from.len() <= u32::MAX,
        m.to.len() <= u32::MAX,
        m.content.len() <= u32::MAX,
    ensures
        ({
            let (b, f) = (m.raw(), m.frame());
            let to_len = 8 + m.from.len() as int;
            let content_len = to_len + 4 + m.to.len();
            let end = content_len + 4 + m.content.len();
            &&& b.len() == end
            &&& b[0] == 0xaa && b[1] == 0x55 && b[2] == message::typ_code(m.typ) && b[3] == m.msgnum
            &&& wire::be_u32(b.subrange(4, 8)) == m.from.len()
            &&& b.subrange(8, to_len) == m.from
            &&& wire::be_u32(b.subrange(to_len, to_len + 4)) == m.to.len()
            &&& b.subrange(to_len + 4, content_len) == m.to
            &&& wire::be_u32(b.subrange(content_len, content_len + 4)) == m.content.len()
            &&& b.subrange(content_len + 4, end) == m.content
            &&& f.len() == end + 4
            &&& f.take(end) == b
            &&& wire::be_u32(f.skip(end)) == wire::checksum(b)
        }),
{
    head_stands(m);
    sender_stands(m);
    recipients_stand(m);
    content_stands(m);
    checksum_stands(m.raw());
}

/// A message that is given its checksum keeps everything else.
pub proof fn sealing_sets_the_checksum(m: MessageView)
    ensures
        m.sealed().typ == m.typ,
        m.sealed().msgnum == m.msgnum,
        m.sealed().from == m.from,
        m.sealed().to == m.to,
        m.sealed().content == m.content,
        m.sealed().crc == wire::checksum(m.raw()),
        m.sealed().raw() == m.raw(),
{
}

/// The bytes of a type are these, and no other byte stands for a type.
pub proof fn codes_of_types(byte: u8)
    ensures
        message::known_code(byte) <==> byte == 1 || byte == 2 || byte == 3 || byte == 20 || byte
            == 21 || byte == 40 || byte == 41 || byte == 42 || byte == 43,
{
}

/// While no header has arrived nothing is read, and nothing is thrown away.
pub proof fn nothing_without_a_header(addr: AddrView, b: Seq<u8>)
    requires
        forall|i: int| 0 <= i < b.len() - 1 ==> !(#[trigger] b[i] == 0xaa && b[i + 1] == 0x55),
    ensures
        CodecView::fresh(addr).decode(b) == (
            None::<Result<MessageView, Seq<char>>>,
            CodecView::fresh(addr),
            b,
        ),
{
    assert(CodecView::fresh(addr).step(b) == Step::Wait) by {
        if exists|i: int| codec::first_header_at(b, i) {
            let i = choose|i: int| codec::first_header_at(b, i);
            assert(b[i] == 0xaa && b[i + 1] == 0x55);
        }
    }
}

/// A type that is not known is told, and left together with what follows it.
pub proof fn unknown_type_is_told(addr: AddrView, junk: Seq<u8>, code: u8, rest: Seq<u8>)
    requires
        headless(junk),
        !(1 <= code <= 3),
        !(20 <= code <= 21),
        !(40 <= code <= 43),
    ensures
        CodecView::fresh(addr).decode(junk + seq![0xaau8, 0x55u8] + (seq![code] + rest)) == (
            Some(
                Err::<MessageView, Seq<char>>(
                    "Unknown message code "@ + text::decimal(code as nat),
                ),
            ),
            CodecView::fresh(addr),
            seq![code] + rest,
        ),
{
    let b = seq![code] + rest;
    let c = CodecView { state: ParseState::Typ, ..CodecView::fresh(addr) };
    header_read(CodecView::fresh(addr), junk, b);
    assert(c.step(b) == Step::Fail(message::unknown_code_text(code), b));
}

/// A sender that is not text is told, and the message is given up behind it.
pub proof fn sender_must_be_text(
    addr: AddrView,
    junk: Seq<u8>,
    typ: message::MsgTyp,
    msgnum: u8,
    from: Seq<u8>,
    rest: Seq<u8>,
)
    requires
        headless(junk),
        from.len() <= u32::MAX,
        !vstd::utf8::valid_utf8(from),
    ensures
        CodecView::fresh(addr).decode(
            junk + seq![0xaau8, 0x55u8] + (seq![message::typ_code(typ), msgnum] + (message::field(
                from,
            ) + rest)),
        ) == (
            Some(
                Err::<MessageView, Seq<char>>(
                    "Could not parse field as a string: "@ + text::utf8_fault(from),
                ),
            ),
            CodecView::fresh(addr),
            rest,
        ),
{
    let b = message::field(from) + rest;
    let c1 = CodecView { state: ParseState::Typ, ..CodecView::fresh(addr) };
    let c2 = CodecView { state: ParseState::From, typ, msgnum, ..c1 };
    header_read(CodecView::fresh(addr), junk, seq![message::typ_code(typ), msgnum] + b);
    numbers_read(c1, typ, msgnum, b);
    field_round_trip(from, rest);
    assert(c2.step(b) == Step::Fail(codec::not_text(from), rest));
}

/// A sender that is text is read as it was written.
proof fn sender_read(c: CodecView, from: Seq<u8>, rest: Seq<u8>)
    requires
        c.state is From,
        from.len() <= u32::MAX,
        vstd::utf8::valid_utf8(from),
    ensures
        c.decode(message::field(from) + rest) == (CodecView {
            state: ParseState::To,
            from,
            ..c
        }).decode(rest),
{
    let b = message::field(from) + rest;
    field_round_trip(from, rest);
    assert(c.step(b) == Step::Next(CodecView { state: ParseState::To, from, ..c }, rest));
}

/// Recipients that are not text are given up.
proof fn recipients_fail(c: CodecView, to: Seq<u8>, rest: Seq<u8>)
    requires
        c.state is To,
        to.len() <= u32::MAX,
        !vstd::utf8::valid_utf8(to),
    ensures
        c.decode(message::field(to) + rest) == (
            Some(
                Err::<MessageView, Seq<char>>(
                    "Could not parse field as a string: "@ + text::utf8_fault(to),
                ),
            ),
            CodecView::fresh(c.addr),
            rest,
        ),
{
    let b = message::field(to) + rest;
    field_round_trip(to, rest);
    assert(c.step(b) == Step::Fail(codec::not_text(to), rest));
}

/// Recipients that are not text are told, and the message is given up behind them.
pub proof fn recipients_must_be_text(
    addr: AddrView,
    junk: Seq<u8>,
    typ: message::MsgTyp,
    msgnum: u8,
    from: Seq<u8>,
    to: Seq<u8>,
    rest: Seq<u8>,
)
    requires
        headless(junk),
        from.len() <= u32::MAX,
        to.len() <= u32::MAX,
        vstd::utf8::valid_utf8(from),
        !vstd::utf8::valid_utf8(to),
    ensures
        CodecView::fresh(addr).decode(
            junk + seq![0xaau8, 0x55u8] + (seq![message::typ_code(typ), msgnum] + (message::field(
                from,
            ) + (message::field(to) + rest))),
        ) == (
            Some(
                Err::<MessageView, Seq<char>>(
                    "Could not parse field as a string: "@ + text::utf8_fault(to),
                ),
            ),
            CodecView::fresh(addr),
            rest,
        ),
{
    let b2 = message::field(to) + rest;
    let b1 = message::field(from) + b2;
    let c1 = CodecView { state: ParseState::Typ, ..CodecView::fresh(addr) };
    let c2 = CodecView { state: ParseState::From, typ, msgnum, ..c1 };
    let c3 = CodecView { state: ParseState::To, from, ..c2 };
    header_read(CodecView::fresh(addr), junk, seq![message::typ_code(typ), msgnum] + b1);
    numbers_read(c1, typ, msgnum, b1);
    sender_read(c2, from, b2);
    recipients_fail(c3, to, rest);
}

} // verus!
