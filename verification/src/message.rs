//! Messages and their bytes.
//!
//! A message is framed as follows, the numbers with their most significant byte first.
//!
//! ```text
//! HDR: 0xAA55
//! msgtype: u8
//! msgnumber: u8
//! fromlen: u32
//! from: String
//! tolen: u32
//! to: String
//! contentlen: u32
//! content: String
//! crc: u32
//! ```
//!
//! The checksum covers everything before it, the header included.

use crate::buffers;
use crate::text;
use crate::wire;
use bytes::{Bytes, BytesMut};
use std::collections::HashMap;
use std::time::SystemTime;
use vstd::prelude::*;
use vstd::string::StringExecFns;

verus! {

/// The first byte of the header.
pub const HDR_0: u8 = 0b10101010;

/// The second byte of the header.
pub const HDR_1: u8 = 0b01010101;

/// The header: a palindrome that is easy to spot.
pub const HDR: [u8; 2] = [HDR_0, HDR_1];

/// What a message is for.
#[derive(Clone, Copy, Debug, PartialEq, Eq, Structural)]
pub enum MsgTyp {
    /// Send a private message to a peer or group of peers.
    PM,
    /// A broadcast message: send a message to all connected unblocked peers.
    BC,
    /// A blind broadcast message: send a message to all connected unblocked peers but do not put
    /// their addresses into the message.
    BBC,
    /// Request an open connection to a peer or group of peers.
    Connect,
    /// Notify a peer or group of peers that your client is disconnecting.
    Disconnect,
    /// Acknowledge receipt of a message.
    ACK,
    /// Notify a sender that their message was not processed, and the reason why.
    NACK(NACKKind),
}

/// Why a message was not processed.
#[derive(Clone, Copy, Debug, PartialEq, Eq, Structural)]
pub enum NACKKind {
    Blocked,
    ParseError,
    /// A message came with a message number that was already used.
    Duplicate,
}

impl NACKKind {
    /// The words for a reason.
    pub open spec fn words(self) -> Seq<char> {
        match self {
            NACKKind::Blocked => "blocked"@,
            NACKKind::ParseError => "message parse failed"@,
            NACKKind::Duplicate => "duplicate message"@,
        }
    }

    /// The reason in words.
    pub fn to_string(&self) -> (r: String)
        ensures
            r@ == self.words(),
    {
        match self {
            NACKKind::Blocked => "blocked".to_string(),
            NACKKind::ParseError => "message parse failed".to_string(),
            NACKKind::Duplicate => "duplicate message".to_string(),
        }
    }
}

impl MsgTyp {
    /// The words for what the sender of a message did.
    pub open spec fn words(self) -> Seq<char> {
        match self {
            MsgTyp::PM => "sent"@,
            MsgTyp::BC => "broadcast"@,
            MsgTyp::BBC => "blind broadcast"@,
            MsgTyp::Connect => "connected"@,
            MsgTyp::Disconnect => "disconnected"@,
            MsgTyp::ACK => "confirmed message"@,
            MsgTyp::NACK(kind) => "rejected message ("@ + kind.words() + ")"@,
        }
    }

    /// Whether the message answers another one.
    pub open spec fn answers(self) -> bool {
        self is ACK || self is NACK
    }

    /// What the sender of such a message did, in words.
    pub fn to_string(&self) -> (r: String)
        ensures
            r@ == self.words(),
    {
        match self {
            MsgTyp::PM => "sent".to_string(),
            MsgTyp::BC => "broadcast".to_string(),
            MsgTyp::BBC => "blind broadcast".to_string(),
            MsgTyp::Connect => "connected".to_string(),
            MsgTyp::Disconnect => "disconnected".to_string(),
            MsgTyp::ACK => "confirmed message".to_string(),
            MsgTyp::NACK(kind) => {
                let mut r = "rejected message (".to_string();
                r.append(kind.to_string().as_str());
                r.append(")");
                r
            },
        }
    }
}

/// The byte that stands for a message type.
pub open spec fn typ_code(typ: MsgTyp) -> u8 {
    match typ {
        MsgTyp::PM => 1,
        MsgTyp::BC => 2,
        MsgTyp::BBC => 3,
        MsgTyp::Connect => 20,
        MsgTyp::Disconnect => 21,
        MsgTyp::ACK => 40,
        MsgTyp::NACK(NACKKind::Blocked) => 41,
        MsgTyp::NACK(NACKKind::ParseError) => 42,
        MsgTyp::NACK(NACKKind::Duplicate) => 43,
    }
}

/// Whether a byte stands for some message type.
pub open spec fn known_code(byte: u8) -> bool {
    1 <= byte <= 3 || 20 <= byte <= 21 || 40 <= byte <= 43
}

/// What is said of a byte that stands for no message type.
pub open spec fn unknown_code_text(byte: u8) -> Seq<char> {
    "Unknown message code "@ + text::decimal(byte as nat)
}

/// The message type that a byte stands for; the inverse of [`typ_to_byte`].
pub fn byte_to_typ(byte: &u8) -> (r: Result<MsgTyp, String>)
    ensures
        match r {
            Ok(typ) => known_code(*byte) && typ_code(typ) == *byte,
            Err(e) => !known_code(*byte) && e@ == unknown_code_text(*byte),
        },
{
    match *byte {
        1u8 => Ok(MsgTyp::PM),
        2u8 => Ok(MsgTyp::BC),
        3u8 => Ok(MsgTyp::BBC),
        20u8 => Ok(MsgTyp::Connect),
        21u8 => Ok(MsgTyp::Disconnect),
        40u8 => Ok(MsgTyp::ACK),
        41u8 => Ok(MsgTyp::NACK(NACKKind::Blocked)),
        42u8 => Ok(MsgTyp::NACK(NACKKind::ParseError)),
        43u8 => Ok(MsgTyp::NACK(NACKKind::Duplicate)),
        _ => {
            let mut e = "Unknown message code ".to_string();
            e.append(text::to_decimal(*byte as u16).as_str());
            Err(e)
        },
    }
}

/// The byte that stands for a message type; the inverse of [`byte_to_typ`].
pub fn typ_to_byte(typ: &MsgTyp) -> (r: u8)
    ensures
        r == typ_code(*typ),
{
    match typ {
        MsgTyp::PM => 1u8,
        MsgTyp::BC => 2u8,
        MsgTyp::BBC => 3u8,
        MsgTyp::Connect => 20u8,
        MsgTyp::Disconnect => 21u8,
        MsgTyp::ACK => 40u8,
        MsgTyp::NACK(NACKKind::Blocked) => 41u8,
        MsgTyp::NACK(NACKKind::ParseError) => 42u8,
        MsgTyp::NACK(NACKKind::Duplicate) => 43u8,
    }
}

/// The message type that a byte stands for.
pub open spec fn code_typ(byte: u8) -> MsgTyp {
    choose|typ: MsgTyp| typ_code(typ) == byte
}

/// Message types and their bytes determine each other: every type has a known byte of its own, and
/// every known byte is that of a type.
pub proof fn codes_are_inverse(typ: MsgTyp, byte: u8)
    ensures
        known_code(typ_code(typ)),
        code_typ(typ_code(typ)) == typ,
        known_code(byte) ==> typ_code(code_typ(byte)) == byte,
{
    assert(typ_code(code_typ(typ_code(typ))) == typ_code(typ));
    if known_code(byte) {
        let known = if byte == 1 {
            MsgTyp::PM
        } else if byte == 2 {
            MsgTyp::BC
        } else if byte == 3 {
            MsgTyp::BBC
        } else if byte == 20 {
            MsgTyp::Connect
        } else if byte == 21 {
            MsgTyp::Disconnect
        } else if byte == 40 {
            MsgTyp::ACK
        } else if byte == 41 {
            MsgTyp::NACK(NACKKind::Blocked)
        } else if byte == 42 {
            MsgTyp::NACK(NACKKind::ParseError)
        } else {
            MsgTyp::NACK(NACKKind::Duplicate)
        };
        assert(typ_code(known) == byte);
    }
}

/// A length as it is written in front of a field: 32 bits of it.
pub open spec fn len32(len: nat) -> u32 {
    (len % 0x1_0000_0000) as u32
}

/// Writes a length as four bytes, the most significant first. What does not fit is cut off.
pub fn len_to_bytes(len: usize) -> (r: [u8; 4])
    ensures
        r@ == wire::be_bytes(len32(len as nat)),
{
    let mut buf: [u8; 4] = [0; 4];
    let wide = len as u64;
    #[verifier::truncate]
    let n = wide as u32;
    assert(n == wide % 0x1_0000_0000) by (bit_vector)
        requires
            n == wide as u32,
    ;
    wire::write_u32(&mut buf, n);
    buf
}

/// A message.
#[derive(Debug)]
pub struct Message {
    /// The message type says what the rest means.
    pub typ: MsgTyp,
    /// A counter, by which a receiver can tell whether a message got lost, and by which an answer
    /// names the message that it answers.
    pub msgnum: u8,
    /// The name of the sender.
    pub from: Bytes,
    /// The addresses of all recipients, as text.
    pub to: Bytes,
    /// What it holds depends on the message type.
    pub content: Bytes,
    /// The checksum of the rest.
    pub crc: u32,
}

/// What a [`Message`] stands for.
pub struct MessageView {
    pub typ: MsgTyp,
    pub msgnum: u8,
    pub from: Seq<u8>,
    pub to: Seq<u8>,
    pub content: Seq<u8>,
    pub crc: u32,
}

/// A field with its length in front.
pub open spec fn field(b: Seq<u8>) -> Seq<u8> {
    wire::be_bytes(len32(b.len())) + b
}

impl MessageView {
    /// The bytes of a message, up to its checksum.
    pub open spec fn raw(self) -> Seq<u8> {
        seq![HDR_0, HDR_1, typ_code(self.typ), self.msgnum] + field(self.from) + field(self.to)
            + field(self.content)
    }

    /// The message with the checksum that its bytes have.
    pub open spec fn sealed(self) -> MessageView {
        MessageView { crc: wire::checksum(self.raw()), ..self }
    }

    /// All bytes of the message, with the checksum that they have.
    pub open spec fn frame(self) -> Seq<u8> {
        self.raw() + wire::be_bytes(wire::checksum(self.raw()))
    }

    /// How a message is shown to the user: who did what, and, unless it is an answer, the content.
    pub open spec fn shown(self) -> Seq<u8> {
        let head = seq![0x5bu8] + self.from + seq![0x20u8] + vstd::utf8::encode_utf8(
            self.typ.words(),
        ) + seq![0x5du8];
        if self.typ.answers() {
            head
        } else {
            head + seq![0x3au8, 0x20u8] + self.content
        }
    }
}

/// A field tells where it ends, so that it and what follows it can be told apart.
proof fn fields_tell_apart(f: Seq<u8>, x: Seq<u8>, g: Seq<u8>, y: Seq<u8>)
    requires
        f.len() <= u32::MAX,
        g.len() <= u32::MAX,
        field(f) + x == field(g) + y,
    ensures
        f == g,
        x == y,
{
    let (b, c) = (field(f) + x, field(g) + y);
    assert(b.take(4) =~= wire::be_bytes(len32(f.len())));
    assert(c.take(4) =~= wire::be_bytes(len32(g.len())));
    wire::be_round_trip(len32(f.len()));
    wire::be_round_trip(len32(g.len()));
    assert(f.len() == g.len());
    let end = 4 + f.len() as int;
    assert(b.subrange(4, end) =~= f);
    assert(c.subrange(4, end) =~= g);
    assert(b.skip(end) =~= x);
    assert(c.skip(end) =~= y);
}

/// The bytes of a message, part by part.
proof fn raw_parts(m: MessageView)
    ensures
        m.raw().len() >= 4,
        m.raw()[2] == typ_code(m.typ),
        m.raw()[3] == m.msgnum,
        m.raw().skip(4) == field(m.from) + (field(m.to) + (field(m.content) + Seq::empty())),
{
    assert(m.raw().skip(4) =~= field(m.from) + (field(m.to) + (field(m.content) + Seq::empty())));
}

/// Two messages have the same bytes, and so the same checksum, exactly if type, number, sender,
/// recipients and content agree. Whatever checksums they carry does not matter.
pub proof fn bytes_tell_messages_apart(a: MessageView, b: MessageView)
    requires
        a.from.len() <= u32::MAX,
        a.to.len() <= u32::MAX,
        a.content.len() <= u32::MAX,
        b.from.len() <= u32::MAX,
        b.to.len() <= u32::MAX,
        b.content.len() <= u32::MAX,
    ensures
        a.raw() == b.raw() <==> {
            &&& a.typ == b.typ
            &&& a.msgnum == b.msgnum
            &&& a.from == b.from
            &&& a.to == b.to
            &&& a.content == b.content
        },
        a.raw() == b.raw() ==> a.sealed() == b.sealed(),
{
    raw_parts(a);
    raw_parts(b);
    if a.raw() == b.raw() {
        let none = Seq::<u8>::empty();
        let (a1, b1) = (field(a.content) + none, field(b.content) + none);
        let (a2, b2) = (field(a.to) + a1, field(b.to) + b1);
        codes_are_inverse(a.typ, 0);
        codes_are_inverse(b.typ, 0);
        assert(field(a.from) + a2 == field(b.from) + b2);
        fields_tell_apart(a.from, a2, b.from, b2);
        fields_tell_apart(a.to, a1, b.to, b1);
        fields_tell_apart(a.content, none, b.content, none);
    }
}

/// Whether fields of these lengths can be framed: no buffer is larger than `isize::MAX` bytes.
pub open spec fn frameable(from: nat, to: nat, content: nat) -> bool {
    16 + from + to + content <= isize::MAX
}

impl View for Message {
    type V = MessageView;

    open spec fn view(&self) -> MessageView {
        MessageView {
            typ: self.typ,
            msgnum: self.msgnum,
            from: buffers::octets(self.from),
            to: buffers::octets(self.to),
            content: buffers::octets(self.content),
            crc: self.crc,
        }
    }
}

impl Clone for Message {
    fn clone(&self) -> (r: Self)
        ensures
            r@ == self@,
    {
        Message {
            typ: self.typ,
            msgnum: self.msgnum,
            from: self.from.clone(),
            to: self.to.clone(),
            content: self.content.clone(),
            crc: self.crc,
        }
    }
}

/// Appends a slice to a vector.
pub(crate) fn put(v: &mut Vec<u8>, s: &[u8])
    ensures
        final(v)@ == old(v)@ + s@,
{
    v.extend_from_slice(s);
    assert(v@ =~= old(v)@ + s@);
}

impl Message {
    /// A message with the checksum of its bytes.
    pub fn new(typ: MsgTyp, msgnum: u8, from: Bytes, to: Bytes, content: Bytes) -> (r: Message)
        requires
            frameable(
                buffers::octets(from).len(),
                buffers::octets(to).len(),
                buffers::octets(content).len(),
            ),
        ensures
            r.typ == typ,
            r.msgnum == msgnum,
            r.from == from,
            r.to == to,
            r.content == content,
            r.crc == wire::checksum(r@.raw()),
    {
        let mut msg = Message { typ, msgnum, from, to, content, crc: 0u32 };
        let (_, crc) = msg.raw();
        msg.crc = crc;
        msg
    }

    /// The bytes of the message up to the checksum, and their checksum.
    pub fn raw(&mut self) -> (r: (Bytes, u32))
        requires
            frameable(
                old(self)@.from.len(),
                old(self)@.to.len(),
                old(self)@.content.len(),
            ),
        ensures
            *final(self) == *old(self),
            buffers::octets(r.0) == old(self)@.raw(),
            r.1 == wire::checksum(old(self)@.raw()),
    {
        let hdr: [u8; 4] = [HDR_0, HDR_1, typ_to_byte(&self.typ), self.msgnum];
        let fromlen = len_to_bytes(self.from.len());
        let tolen = len_to_bytes(self.to.len());
        let contentlen = len_to_bytes(self.content.len());
        let msglen = hdr.len() + tolen.len() + self.to.len() + fromlen.len() + self.from.len()
            + contentlen.len() + self.content.len();
        let mut raw = BytesMut::with_capacity(msglen);
        raw.extend_from_slice(&hdr);
        raw.extend_from_slice(&fromlen);
        raw.extend_from_slice(&self.from);
        raw.extend_from_slice(&tolen);
        raw.extend_from_slice(&self.to);
        raw.extend_from_slice(&contentlen);
        raw.extend_from_slice(&self.content);
        assert(buffers::contents(raw) =~= self@.raw());
        let crc = wire::checksum_ieee(&raw);
        (raw.freeze(), crc)
    }

    /// The message as it is shown to the user. Names and contents are shown byte for byte, whether
    /// or not they are text.
    pub fn display(&self) -> (r: Vec<u8>)
        ensures
            r@ == self@.shown(),
    {
        let mut r: Vec<u8> = Vec::new();
        r.push(0x5bu8);
        put(&mut r, &self.from);
        r.push(0x20u8);
        put(&mut r, self.typ.to_string().as_str().as_bytes());
        r.push(0x5du8);
        match self.typ {
            MsgTyp::ACK | MsgTyp::NACK(_) => {},
            _ => {
                r.push(0x3au8);
                r.push(0x20u8);
                put(&mut r, &self.content);
            },
        }
        assert(r@ =~= self@.shown());
        r
    }
}

/// Numbers the messages that it builds, and notes the time at which each was built, so that the
/// time until its answer comes can be told.
#[derive(Debug)]
pub struct MsgBuilder {
    username: Bytes,
    msgnum: u8,
    /// When the last message with each number was built.
    pub ping_map: HashMap<u8, SystemTime>,
}

/// The number that follows a message number: after 255 comes 0 again.
pub open spec fn next_number(n: u8) -> u8 {
    ((n + 1) % 256) as u8
}

/// The number of the message that is built `count` messages after that with the number `n`.
pub open spec fn number_after(n: u8, count: nat) -> u8
    decreases count,
{
    if count == 0 {
        n
    } else {
        next_number(number_after(n, (count - 1) as nat))
    }
}

/// Messages are counted, and the count wraps around after 256 messages.
pub proof fn numbers_count(n: u8, count: nat)
    ensures
        number_after(n, count) == (n + count) % 256,
    decreases count,
{
    if count > 0 {
        numbers_count(n, (count - 1) as nat);
    }
}

/// No two messages have the same number unless 256 messages or more were built from one to the
/// other.
pub proof fn numbers_differ(n: u8, i: nat, j: nat)
    requires
        i < j < i + 256,
    ensures
        number_after(n, i) != number_after(n, j),
{
    numbers_count(n, i);
    numbers_count(n, j);
}

impl MsgBuilder {
    /// The name under which messages are built.
    pub closed spec fn username(self) -> Seq<u8> {
        buffers::octets(self.username)
    }

    /// The number of the message that was built last.
    pub closed spec fn msgnum(self) -> u8 {
        self.msgnum
    }

    /// When the last message with each number was built.
    pub closed spec fn pings(self) -> Map<u8, SystemTime> {
        self.ping_map@
    }

    /// How long the name is.
    pub fn username_len(&self) -> (r: usize)
        ensures
            r == self.username().len(),
    {
        self.username.len()
    }

    /// When the last message numbered `msgnum` was built, if one was.
    pub fn sent_at(&self, msgnum: u8) -> (r: Option<&SystemTime>)
        ensures
            match r {
                Some(then) => self.pings().dom().contains(msgnum) && *then == self.pings()[msgnum],
                None => !self.pings().dom().contains(msgnum),
            },
    {
        broadcast use vstd::std_specs::hash::group_hash_axioms;

        self.ping_map.get(&msgnum)
    }

    /// A builder of messages from `username`, which has built none.
    pub fn new(username: Bytes) -> (r: MsgBuilder)
        ensures
            r.username() == buffers::octets(username),
            r.msgnum() == 0,
            r.pings() == Map::<u8, SystemTime>::empty(),
    {
        MsgBuilder { username, msgnum: 0u8, ping_map: HashMap::new() }
    }

    /// What building a message with some reading of the clock makes of the builder, and the
    /// message.
    pub open spec fn builds(
        self,
        after: MsgBuilder,
        typ: MsgTyp,
        to: Seq<u8>,
        content: Seq<u8>,
        now: SystemTime,
        msg: MessageView,
    ) -> bool {
        &&& after.username() == self.username()
        &&& after.msgnum() == next_number(self.msgnum())
        &&& after.pings() == self.pings().insert(next_number(self.msgnum()), now)
        &&& msg == (MessageView {
            typ,
            msgnum: next_number(self.msgnum()),
            from: self.username(),
            to,
            content,
            crc: 0,
        }).sealed()
    }

    /// What building a message with whatever the clock reads makes of the builder, and the message.
    pub open spec fn builds_now(
        self,
        after: MsgBuilder,
        typ: MsgTyp,
        to: Seq<u8>,
        content: Seq<u8>,
        msg: MessageView,
    ) -> bool {
        exists|now: SystemTime| self.builds(after, typ, to, content, now, msg)
    }

    /// What is known of a message that was built, whatever the clock read.
    proof fn as_asked(
        before: MsgBuilder,
        after: MsgBuilder,
        typ: MsgTyp,
        to: Seq<u8>,
        content: Seq<u8>,
        msg: MessageView,
    )
        requires
            before.builds_now(after, typ, to, content, msg),
        ensures
            after.username() == before.username(),
            after.msgnum() == next_number(before.msgnum()),
            msg.typ == typ,
            msg.msgnum == next_number(before.msgnum()),
            msg.from == before.username(),
            msg.to == to,
            msg.content == content,
    {
    }

    /// Whether messages were built one after the other, each of the type, to the recipients and
    /// with the content that were asked for. The builders are those before the first message,
    /// between each two, and after the last.
    #[verifier::opaque]
    pub open spec fn built_in_turn(
        builders: Seq<MsgBuilder>,
        typs: Seq<MsgTyp>,
        tos: Seq<Seq<u8>>,
        contents: Seq<Seq<u8>>,
        msgs: Seq<MessageView>,
    ) -> bool {
        &&& builders.len() == msgs.len() + 1
        &&& forall|i: int|
            0 <= i < msgs.len() ==> builders[i].builds_now(
                builders[i + 1],
                typs[i],
                tos[i],
                contents[i],
                #[trigger] msgs[i],
            )
    }

    /// What is known of one of them.
    proof fn turn(
        builders: Seq<MsgBuilder>,
        typs: Seq<MsgTyp>,
        tos: Seq<Seq<u8>>,
        contents: Seq<Seq<u8>>,
        msgs: Seq<MessageView>,
        i: int,
    )
        requires
            MsgBuilder::built_in_turn(builders, typs, tos, contents, msgs),
            0 <= i < msgs.len(),
        ensures
            builders[i + 1].username() == builders[i].username(),
            builders[i + 1].msgnum() == next_number(builders[i].msgnum()),
            msgs[i].typ == typs[i],
            msgs[i].msgnum == next_number(builders[i].msgnum()),
            msgs[i].from == builders[i].username(),
            msgs[i].to == tos[i],
            msgs[i].content == contents[i],
    {
        reveal(MsgBuilder::built_in_turn);
        let msg = msgs[i];
        MsgBuilder::as_asked(builders[i], builders[i + 1], typs[i], tos[i], contents[i], msg);
    }

    /// The messages that a new builder builds, one after the other, are numbered 1, 2 and so on,
    /// and from 0 again after 255. Each is from the name that the builder was given, and of the
    /// type, to the recipients and with the content that were asked for.
    pub proof fn messages_are_numbered(
        builders: Seq<MsgBuilder>,
        typs: Seq<MsgTyp>,
        tos: Seq<Seq<u8>>,
        contents: Seq<Seq<u8>>,
        msgs: Seq<MessageView>,
        k: int,
    )
        requires
            MsgBuilder::built_in_turn(builders, typs, tos, contents, msgs),
            builders[0].msgnum() == 0,
            1 <= k <= msgs.len(),
        ensures
            msgs[k - 1].msgnum == k % 256,
            msgs[k - 1].from == builders[0].username(),
            msgs[k - 1].typ == typs[k - 1],
            msgs[k - 1].to == tos[k - 1],
            msgs[k - 1].content == contents[k - 1],
            builders[k].msgnum() == k % 256,
            builders[k].username() == builders[0].username(),
        decreases k,
    {
        if k > 1 {
            MsgBuilder::messages_are_numbered(builders, typs, tos, contents, msgs, k - 1);
        }
        MsgBuilder::turn(builders, typs, tos, contents, msgs, k - 1);
    }

    /// Builds the next message and notes that it was built now.
    pub fn build(&mut self, typ: MsgTyp, to: Bytes, content: Bytes) -> (r: Message)
        requires
            frameable(
                old(self).username().len(),
                buffers::octets(to).len(),
                buffers::octets(content).len(),
            ),
        ensures
            old(self).builds_now(
                *final(self),
                typ,
                buffers::octets(to),
                buffers::octets(content),
                r@,
            ),
    {
        let now = SystemTime::now();
        self.build_at(typ, to, content, now)
    }

    /// Builds the next message and notes that it was built at `now`.
    pub fn build_at(&mut self, typ: MsgTyp, to: Bytes, content: Bytes, now: SystemTime) -> (r:
        Message)
        requires
            frameable(
                old(self).username().len(),
                buffers::octets(to).len(),
                buffers::octets(content).len(),
            ),
        ensures
            old(self).builds(
                *final(self),
                typ,
                buffers::octets(to),
                buffers::octets(content),
                now,
                r@,
            ),
    {
        broadcast use vstd::std_specs::hash::group_hash_axioms;

        self.msgnum = self.msgnum.wrapping_add(1);
        self.ping_map.insert(self.msgnum, now);
        let msg = Message::new(typ, self.msgnum, self.username.clone(), to, content);
        assert(msg@.raw() == (MessageView { crc: 0, ..msg@ }).raw());
        msg
    }
}

} // verus!
