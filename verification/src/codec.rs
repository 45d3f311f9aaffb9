//! Reads messages out of a stream of bytes, and writes them into one.

use crate::addr::{Addr, AddrView};
use crate::buffers;
use crate::message;
use crate::message::{Message, MessageView, MsgTyp, HDR_0, HDR_1};
use crate::text;
use crate::wire;
use bytes::{Bytes, BytesMut};
use vstd::prelude::*;
use vstd::string::StringExecFns;

verus! {

/// Which part of a message comes next.
#[derive(Clone, Copy, Debug, PartialEq, Eq, Structural)]
pub enum ParseState {
    Init,
    Typ,
    MsgNum,
    From,
    To,
    Content,
    CRC,
    Done,
}

/// What a [`MsgCodec`] holds between two calls: the parts of a message that have been read.
pub struct CodecView {
    pub addr: AddrView,
    pub state: ParseState,
    pub typ: MsgTyp,
    pub msgnum: u8,
    pub from: Seq<u8>,
    pub to: Seq<u8>,
    pub content: Seq<u8>,
    pub crc: u32,
}

/// What comes of reading one part.
pub enum Step {
    /// The part has not arrived in full; nothing is taken.
    Wait,
    /// The part was read; this is held now, and these bytes are left.
    Next(CodecView, Seq<u8>),
    /// The part is not what it should be; this is why, and these bytes are left.
    Fail(Seq<char>, Seq<u8>),
    /// All parts have been read and make up this message.
    Complete(MessageView),
}

/// Whether the header stands at a place.
pub open spec fn header_at(b: Seq<u8>, i: int) -> bool {
    0 <= i && i + 1 < b.len() && b[i] == HDR_0 && b[i + 1] == HDR_1
}

/// Whether a place is the first at which the header stands.
pub open spec fn first_header_at(b: Seq<u8>, i: int) -> bool {
    header_at(b, i) && forall|j: int| j < i ==> !header_at(b, j)
}

/// Whether a field has arrived in full: its length, and as many bytes.
pub open spec fn field_arrived(b: Seq<u8>) -> bool {
    b.len() >= 4 && b.len() - 4 >= wire::be_u32(b.take(4))
}

/// The bytes of a field that has arrived.
pub open spec fn field_bytes(b: Seq<u8>) -> Seq<u8> {
    b.subrange(4, 4 + wire::be_u32(b.take(4)))
}

/// What follows a field that has arrived.
pub open spec fn after_field(b: Seq<u8>) -> Seq<u8> {
    b.skip(4 + wire::be_u32(b.take(4)))
}

/// What is said of a field that should be text and is not.
pub open spec fn not_text(b: Seq<u8>) -> Seq<char> {
    "Could not parse field as a string: "@ + text::utf8_fault(b)
}

impl CodecView {
    /// A codec that has read no part of a message.
    pub open spec fn fresh(addr: AddrView) -> CodecView {
        CodecView {
            addr,
            state: ParseState::Init,
            typ: MsgTyp::BC,
            msgnum: 0,
            from: Seq::empty(),
            to: Seq::empty(),
            content: Seq::empty(),
            crc: 0,
        }
    }

    /// How many bytes of fields the codec holds.
    pub open spec fn held(self) -> nat {
        self.from.len() + self.to.len() + self.content.len()
    }

    /// How many parts are still to be read.
    pub open spec fn parts_left(self) -> nat {
        match self.state {
            ParseState::Init => 7,
            ParseState::Typ => 6,
            ParseState::MsgNum => 5,
            ParseState::From => 4,
            ParseState::To => 3,
            ParseState::Content => 2,
            ParseState::CRC => 1,
            ParseState::Done => 0,
        }
    }

    /// The message that the parts make up, with the checksum of its bytes.
    pub open spec fn assembled(self) -> MessageView {
        (MessageView {
            typ: self.typ,
            msgnum: self.msgnum,
            from: self.from,
            to: self.to,
            content: self.content,
            crc: 0,
        }).sealed()
    }

    /// Skips to behind the next header.
    pub open spec fn read_init(self, b: Seq<u8>) -> Step {
        if exists|i: int| first_header_at(b, i) {
            let i = choose|i: int| first_header_at(b, i);
            Step::Next(CodecView { state: ParseState::Typ, ..self }, b.skip(i + 2))
        } else {
            Step::Wait
        }
    }

    /// Reads the message type.
    pub open spec fn read_typ(self, b: Seq<u8>) -> Step {
        if b.len() < 1 {
            Step::Wait
        } else if message::known_code(b[0]) {
            Step::Next(
                CodecView { state: ParseState::MsgNum, typ: message::code_typ(b[0]), ..self },
                b.skip(1),
            )
        } else {
            Step::Fail(message::unknown_code_text(b[0]), b)
        }
    }

    /// Reads the message number.
    pub open spec fn read_msgnum(self, b: Seq<u8>) -> Step {
        if b.len() < 1 {
            Step::Wait
        } else {
            Step::Next(CodecView { state: ParseState::From, msgnum: b[0], ..self }, b.skip(1))
        }
    }

    /// Reads the sender.
    pub open spec fn read_from(self, b: Seq<u8>) -> Step {
        if !field_arrived(b) {
            Step::Wait
        } else if vstd::utf8::valid_utf8(field_bytes(b)) {
            Step::Next(
                CodecView { state: ParseState::To, from: field_bytes(b), ..self },
                after_field(b),
            )
        } else {
            Step::Fail(not_text(field_bytes(b)), after_field(b))
        }
    }

    /// Reads the recipients.
    pub open spec fn read_to(self, b: Seq<u8>) -> Step {
        if !field_arrived(b) {
            Step::Wait
        } else if vstd::utf8::valid_utf8(field_bytes(b)) {
            Step::Next(
                CodecView { state: ParseState::Content, to: field_bytes(b), ..self },
                after_field(b),
            )
        } else {
            Step::Fail(not_text(field_bytes(b)), after_field(b))
        }
    }

    /// Reads the content, which may be anything.
    pub open spec fn read_content(self, b: Seq<u8>) -> Step {
        if !field_arrived(b) {
            Step::Wait
        } else {
            Step::Next(
                CodecView { state: ParseState::CRC, content: field_bytes(b), ..self },
                after_field(b),
            )
        }
    }

    /// Reads the checksum.
    pub open spec fn read_crc(self, b: Seq<u8>) -> Step {
        if b.len() < 4 {
            Step::Wait
        } else {
            Step::Next(
                CodecView { state: ParseState::Done, crc: wire::be_u32(b.take(4)), ..self },
                b.skip(4),
            )
        }
    }

    /// Holds the checksum that was read against that of the message.
    pub open spec fn finish(self, b: Seq<u8>) -> Step {
        if self.assembled().crc == self.crc {
            Step::Complete(self.assembled())
        } else {
            Step::Fail("CRC check failed"@, b)
        }
    }

    /// Reads the part that comes next.
    pub open spec fn step(self, b: Seq<u8>) -> Step {
        match self.state {
            ParseState::Init => self.read_init(b),
            ParseState::Typ => self.read_typ(b),
            ParseState::MsgNum => self.read_msgnum(b),
            ParseState::From => self.read_from(b),
            ParseState::To => self.read_to(b),
            ParseState::Content => self.read_content(b),
            ParseState::CRC => self.read_crc(b),
            ParseState::Done => self.finish(b),
        }
    }

    /// Reads parts until a message is complete, a part is not what it should be, or bytes are
    /// missing. Gives the message or what is wrong, if either, then what the codec holds and what
    /// bytes are left. After a message and after a failure the codec starts afresh.
    pub open spec fn decode(self, b: Seq<u8>) -> (
        Option<Result<MessageView, Seq<char>>>,
        CodecView,
        Seq<u8>,
    )
        decreases self.parts_left(),
    {
        match self.step(b) {
            Step::Wait => (None, self, b),
            Step::Fail(e, rest) => (Some(Err(e)), CodecView::fresh(self.addr), rest),
            Step::Complete(m) => (Some(Ok(m)), CodecView::fresh(self.addr), b),
            Step::Next(next, rest) => next.decode(rest),
        }
    }
}

/// What a result of [`MsgCodec::decode`] stands for.
pub open spec fn outcome(r: Option<Result<Message, String>>) -> Option<
    Result<MessageView, Seq<char>>,
> {
    match r {
        None => None,
        Some(Ok(m)) => Some(Ok(m@)),
        Some(Err(e)) => Some(Err(e@)),
    }
}

/// Reads messages that come from one address, and writes messages to it.
#[derive(Debug)]
pub struct MsgCodec {
    /// The address that messages come from.
    addr: Addr,
    /// Which part of a message comes next.
    state: ParseState,
    typ: MsgTyp,
    msgnum: u8,
    from: Bytes,
    to: Bytes,
    content: Bytes,
    crc: u32,
}

impl View for MsgCodec {
    type V = CodecView;

    closed spec fn view(&self) -> CodecView {
        CodecView {
            addr: self.addr@,
            state: self.state,
            typ: self.typ,
            msgnum: self.msgnum,
            from: buffers::octets(self.from),
            to: buffers::octets(self.to),
            content: buffers::octets(self.content),
            crc: self.crc,
        }
    }
}

impl Clone for MsgCodec {
    fn clone(&self) -> (r: Self)
        ensures
            r@ == self@,
    {
        MsgCodec {
            addr: self.addr.clone(),
            state: self.state,
            typ: self.typ,
            msgnum: self.msgnum,
            from: self.from.clone(),
            to: self.to.clone(),
            content: self.content.clone(),
            crc: self.crc,
        }
    }
}

/// Takes the length off the front of a field, where the field has arrived in full.
fn get_len(buf: &mut BytesMut) -> (r: Option<usize>)
    ensures
        match r {
            Some(n) => {
                &&& field_arrived(buffers::contents(*old(buf)))
                &&& n == wire::be_u32(buffers::contents(*old(buf)).take(4))
                &&& buffers::contents(*final(buf)) == buffers::contents(*old(buf)).skip(4)
            },
            None => {
                &&& !field_arrived(buffers::contents(*old(buf)))
                &&& *final(buf) == *old(buf)
            },
        },
{
    if buf.len() < 4 {
        return None;
    }
    let idx32 = wire::read_u32(buf);
    let idx = idx32 as usize;
    if buf.len() - 4 < idx {
        return None;
    }
    let _ = buf.split_to(4);
    Some(idx)
}

/// Says what is wrong with a field that should be text, given what is wrong with its bytes.
pub fn field_fault(fault: &str) -> (r: String)
    ensures
        r@ == "Could not parse field as a string: "@ + fault@,
{
    let mut r = "Could not parse field as a string: ".to_string();
    r.append(fault);
    r
}

/// Holds the checksum that came with a message against the one that the message has.
pub fn checked(msg: Message, crc: u32) -> (r: Result<Message, String>)
    ensures
        match r {
            Ok(m) => msg.crc == crc && m == msg,
            Err(e) => msg.crc != crc && e@ == "CRC check failed"@,
        },
{
    if msg.crc == crc {
        Ok(msg)
    } else {
        Err("CRC check failed".to_string())
    }
}

/// Writes the bytes of a message and their checksum at the end of `dst`.
pub fn put_frame(raw: &Bytes, crc: u32, dst: &mut BytesMut)
    requires
        buffers::contents(*old(dst)).len() + buffers::octets(*raw).len() + 4 <= isize::MAX,
    ensures
        buffers::contents(*final(dst)) == buffers::contents(*old(dst)) + buffers::octets(*raw)
            + wire::be_bytes(crc),
{
    dst.extend_from_slice(raw);
    let mut tail: [u8; 4] = [0; 4];
    wire::write_u32(&mut tail, crc);
    dst.extend_from_slice(&tail);
}

/// Whether reading a part went as `step` says. Where it did not go well, nothing new is held.
spec fn follows(
    step: Step,
    old_codec: CodecView,
    old_buf: Seq<u8>,
    codec: CodecView,
    buf: Seq<u8>,
    r: Result<bool, String>,
) -> bool {
    match step {
        Step::Wait => r matches Ok(more) && !more && codec == old_codec && buf == old_buf,
        Step::Next(next, rest) => r matches Ok(more) && more && codec == next && buf == rest,
        Step::Fail(e, rest) => r matches Err(f) && f@ == e && codec == old_codec && buf == rest,
        Step::Complete(_) => false,
    }
}

impl MsgCodec {
    /// A codec for messages that come from `addr`.
    pub fn new(addr: Addr) -> (r: MsgCodec)
        ensures
            r@ == CodecView::fresh(addr@),
    {
        MsgCodec {
            addr,
            state: ParseState::Init,
            typ: MsgTyp::BC,
            msgnum: 0,
            from: Bytes::new(),
            to: Bytes::new(),
            content: Bytes::new(),
            crc: 0,
        }
    }

    /// Forgets the parts that have been read.
    fn clear(&mut self)
        ensures
            final(self)@ == CodecView::fresh(old(self)@.addr),
    {
        self.state = ParseState::Init;
        self.typ = MsgTyp::BC;
        self.msgnum = 0;
        self.from = Bytes::new();
        self.to = Bytes::new();
        self.content = Bytes::new();
        self.crc = 0;
    }

    /// Skips to behind the next header.
    fn parse_init(&mut self, buf: &mut BytesMut) -> (r: Result<bool, String>)
        requires
            old(self)@.state is Init,
        ensures
            follows(
                old(self)@.read_init(buffers::contents(*old(buf))),
                old(self)@,
                buffers::contents(*old(buf)),
                final(self)@,
                buffers::contents(*final(buf)),
                r,
            ),
    {
        let ghost b = buffers::contents(*buf);
        let n = buf.len();
        let mut i: usize = 0;
        while i < n && n - i >= 2
            invariant
                n == b.len(),
                b == buffers::contents(*buf),
                *buf == *old(buf),
                *self == *old(self),
                i <= n,
                forall|j: int| j < i ==> !header_at(b, j),
            decreases n - i,
        {
            let found = {
                let window: &[u8] = buf;
                window[i] == HDR_0 && window[i + 1] == HDR_1
            };
            if found {
                assert(first_header_at(b, i as int));
                assert(forall|k: int| first_header_at(b, k) ==> k == i);
                let _ = buf.split_to(i + 2);
                self.state = ParseState::Typ;
                return Ok(true);
            }
            i += 1;
        }
        assert(forall|j: int| !header_at(b, j));
        Ok(false)
    }

    /// Reads the message type.
    fn parse_typ(&mut self, buf: &mut BytesMut) -> (r: Result<bool, String>)
        requires
            old(self)@.state is Typ,
        ensures
            follows(
                old(self)@.read_typ(buffers::contents(*old(buf))),
                old(self)@,
                buffers::contents(*old(buf)),
                final(self)@,
                buffers::contents(*final(buf)),
                r,
            ),
    {
        if buf.len() < 1 {
            return Ok(false);
        }
        let byte = {
            let bytes: &[u8] = buf;
            bytes[0]
        };
        match message::byte_to_typ(&byte) {
            Ok(typ) => {
                proof {
                    message::codes_are_inverse(typ, byte);
                }
                self.typ = typ;
            },
            Err(e) => {
                return Err(e);
            },
        }
        let _ = buf.split_to(1);
        self.state = ParseState::MsgNum;
        Ok(true)
    }

    /// Reads the message number.
    fn parse_msgnum(&mut self, buf: &mut BytesMut) -> (r: Result<bool, String>)
        requires
            old(self)@.state is MsgNum,
        ensures
            follows(
                old(self)@.read_msgnum(buffers::contents(*old(buf))),
                old(self)@,
                buffers::contents(*old(buf)),
                final(self)@,
                buffers::contents(*final(buf)),
                r,
            ),
    {
        if buf.len() < 1 {
            return Ok(false);
        }
        self.msgnum = {
            let bytes: &[u8] = buf;
            bytes[0]
        };
        let _ = buf.split_to(1);
        self.state = ParseState::From;
        Ok(true)
    }

    /// Reads a field that should be text.
    fn parse_str(&self, buf: &mut BytesMut) -> (r: Result<Option<Bytes>, String>)
        ensures
            !field_arrived(buffers::contents(*old(buf))) ==> (r matches Ok(None)) && *final(buf)
                == *old(buf),
            field_arrived(buffers::contents(*old(buf))) ==> {
                let bytes = field_bytes(buffers::contents(*old(buf)));
                &&& buffers::contents(*final(buf)) == after_field(buffers::contents(*old(buf)))
                &&& match r {
                    Ok(Some(s)) => vstd::utf8::valid_utf8(bytes) && buffers::octets(s) == bytes,
                    Ok(None) => false,
                    Err(e) => !vstd::utf8::valid_utf8(bytes) && e@ == not_text(bytes),
                }
            },
    {
        let ghost b = buffers::contents(*buf);
        let idx = match get_len(buf) {
            None => {
                return Ok(None);
            },
            Some(idx) => idx,
        };
        let contentbuf = buf.split_to(idx);
        assert(b.skip(4).take(idx as int) =~= field_bytes(b));
        assert(b.skip(4).skip(idx as int) =~= after_field(b));
        match text::from_utf8(&contentbuf) {
            Ok(content) => {
                proof {
                    vstd::utf8::decode_utf8_encode_utf8(field_bytes(b));
                }
                Ok(Some(Bytes::from(content.as_bytes())))
            },
            Err(err) => Err(field_fault(err.as_str())),
        }
    }

    /// Reads the sender.
    fn parse_from(&mut self, buf: &mut BytesMut) -> (r: Result<bool, String>)
        requires
            old(self)@.state is From,
        ensures
            follows(
                old(self)@.read_from(buffers::contents(*old(buf))),
                old(self)@,
                buffers::contents(*old(buf)),
                final(self)@,
                buffers::contents(*final(buf)),
                r,
            ),
    {
        match self.parse_str(buf) {
            Err(e) => Err(e),
            Ok(None) => Ok(false),
            Ok(Some(from)) => {
                self.from = from;
                self.state = ParseState::To;
                Ok(true)
            },
        }
    }

    /// Reads the recipients.
    fn parse_to(&mut self, buf: &mut BytesMut) -> (r: Result<bool, String>)
        requires
            old(self)@.state is To,
        ensures
            follows(
                old(self)@.read_to(buffers::contents(*old(buf))),
                old(self)@,
                buffers::contents(*old(buf)),
                final(self)@,
                buffers::contents(*final(buf)),
                r,
            ),
    {
        match self.parse_str(buf) {
            Err(e) => Err(e),
            Ok(None) => Ok(false),
            Ok(Some(to)) => {
                self.to = to;
                self.state = ParseState::Content;
                Ok(true)
            },
        }
    }

    /// Reads the content.
    fn parse_content(&mut self, buf: &mut BytesMut) -> (r: Result<bool, String>)
        requires
            old(self)@.state is Content,
        ensures
            follows(
                old(self)@.read_content(buffers::contents(*old(buf))),
                old(self)@,
                buffers::contents(*old(buf)),
                final(self)@,
                buffers::contents(*final(buf)),
                r,
            ),
    {
        let ghost b = buffers::contents(*buf);
        let idx = match get_len(buf) {
            None => {
                return Ok(false);
            },
            Some(idx) => idx,
        };
        self.content = buf.split_to(idx).freeze();
        assert(b.skip(4).take(idx as int) =~= field_bytes(b));
        assert(b.skip(4).skip(idx as int) =~= after_field(b));
        self.state = ParseState::CRC;
        Ok(true)
    }

    /// Reads the checksum.
    fn parse_crc(&mut self, buf: &mut BytesMut) -> (r: Result<bool, String>)
        requires
            old(self)@.state is CRC,
        ensures
            follows(
                old(self)@.read_crc(buffers::contents(*old(buf))),
                old(self)@,
                buffers::contents(*old(buf)),
                final(self)@,
                buffers::contents(*final(buf)),
                r,
            ),
    {
        let ghost b = buffers::contents(*buf);
        if buf.len() < 4 {
            return Ok(false);
        }
        let crcbuf = buf.split_to(4);
        let crc = wire::read_u32(&crcbuf);
        assert(b.take(4).take(4) =~= b.take(4));
        self.crc = crc;
        self.state = ParseState::Done;
        Ok(true)
    }

    /// Makes a message of the parts, once all have been read.
    fn assemble(&self) -> (r: Option<Message>)
        requires
            message::frameable(self@.from.len(), self@.to.len(), self@.content.len()),
        ensures
            match r {
                Some(m) => self@.state is Done && m@ == self@.assembled(),
                None => !(self@.state is Done),
            },
    {
        if self.state != ParseState::Done {
            return None;
        }
        let m = Message::new(
            self.typ,
            self.msgnum,
            self.from.clone(),
            self.to.clone(),
            self.content.clone(),
        );
        assert(m@.raw() == (MessageView { crc: 0, ..m@ }).raw());
        Some(m)
    }

    /// Reads the next message out of `buf`, or as much of it as has arrived. Gives `None` where
    /// bytes are missing, and what is wrong where a part is not what it should be; the sender of
    /// such a message should be told so.
    pub fn decode(&mut self, buf: &mut BytesMut) -> (r: Option<Result<Message, String>>)
        requires
            16 + old(self)@.held() + buffers::contents(*old(buf)).len() <= isize::MAX,
        ensures
            (outcome(r), final(self)@, buffers::contents(*final(buf))) == old(self)@.decode(
                buffers::contents(*old(buf)),
            ),
            final(self)@.held() + buffers::contents(*final(buf)).len() <= old(self)@.held()
                + buffers::contents(*old(buf)).len(),
    {
        loop
            invariant
                self@.held() + buffers::contents(*buf).len() <= old(self)@.held()
                    + buffers::contents(*old(buf)).len(),
                16 + self@.held() + buffers::contents(*buf).len() <= isize::MAX,
                self@.decode(buffers::contents(*buf)) == old(self)@.decode(
                    buffers::contents(*old(buf)),
                ),
                self@.addr == old(self)@.addr,
            decreases self@.parts_left(),
        {
            let parse_result = match self.state {
                ParseState::Init => self.parse_init(buf),
                ParseState::Typ => self.parse_typ(buf),
                ParseState::MsgNum => self.parse_msgnum(buf),
                ParseState::From => self.parse_from(buf),
                ParseState::To => self.parse_to(buf),
                ParseState::Content => self.parse_content(buf),
                ParseState::CRC => self.parse_crc(buf),
                ParseState::Done => match self.assemble() {
                    None => Ok(false),
                    Some(msg) => match checked(msg, self.crc) {
                        Ok(msg) => {
                            self.clear();
                            return Some(Ok(msg));
                        },
                        Err(e) => Err(e),
                    },
                },
            };
            match parse_result {
                Ok(false) => {
                    return None;
                },
                Ok(true) => {},
                Err(parsefault) => {
                    self.clear();
                    return Some(Err(parsefault));
                },
            }
        }
    }

    /// Writes a message, with the checksum of its bytes, at the end of `dst`.
    pub fn encode(&mut self, item: Message, dst: &mut BytesMut)
        requires
            buffers::contents(*old(dst)).len() + item@.raw().len() + 4 <= isize::MAX,
        ensures
            *final(self) == *old(self),
            buffers::contents(*final(dst)) == buffers::contents(*old(dst)) + item@.frame(),
    {
        let (raw, crc) = item.clone().raw();
        put_frame(&raw, crc, dst);
        assert(buffers::contents(*dst) =~= buffers::contents(*old(dst)) + item@.frame());
    }
}

} // verus!
