//! What holds of a message that goes out and of the answer that comes back.

use crate::addr::AddrView;
use crate::codec::CodecView;
use crate::framing;
use crate::message::{MessageView, MsgBuilder, MsgTyp, NACKKind};
use crate::peer;
use crate::peer::{ConfigView, PeerVolume};
use crate::terminal;
use crate::terminal::TermView;
use crate::wire;
use vstd::prelude::*;

verus! {

/// Whether a client can answer a peer: the client goes by a name that is text, and neither the name
/// nor the peer's address is too long for its length to be written.
pub open spec fn can_answer(client: Seq<u8>, addr: AddrView) -> bool {
    &&& vstd::utf8::valid_utf8(client)
    &&& client.len() <= u32::MAX
    &&& vstd::utf8::encode_utf8(addr.text).len() <= u32::MAX
}

/// What is read out of the bytes of an answer is the answer.
proof fn answer_arrives(
    client: Seq<u8>,
    sender: AddrView,
    receiver: AddrView,
    typ: MsgTyp,
    msgnum: u8,
)
    requires
        can_answer(client, sender),
    ensures
        ({
            let a = peer::answer(client, sender, typ, msgnum);
            CodecView::fresh(receiver).decode(a.frame()) == (
                Some(Ok::<MessageView, Seq<char>>(a)),
                CodecView::fresh(receiver),
                Seq::<u8>::empty(),
            )
        }),
{
    let a = peer::answer(client, sender, typ, msgnum);
    let none = Seq::<u8>::empty();
    peer::answers_can_be_read(client, sender, typ, msgnum);
    framing::round_trip(receiver, none, a, none);
    assert(none + a.frame() + none =~= a.frame());
    assert(a.raw() == (MessageView { crc: 0, ..a }).raw());
}

/// A message that is sent arrives, and its sender learns of it by its number: the answer that comes
/// back, and is read in full, confirms the message, or rejects it if the sender is muted.
pub proof fn sent_is_answered(
    m: MessageView,
    client: Seq<u8>,
    sender: AddrView,
    receiver: AddrView,
    muted: bool,
)
    requires
        framing::writable(m),
        peer::is_answered(m.typ),
        can_answer(client, sender),
    ensures
        CodecView::fresh(sender).decode(m.frame()) == (
            Some(Ok::<MessageView, Seq<char>>(m.sealed())),
            CodecView::fresh(sender),
            Seq::<u8>::empty(),
        ),
        peer::handling(Ok(m.sealed()), client, sender, muted).reply matches Some(a) && {
            &&& CodecView::fresh(receiver).decode(a.frame()) == (
                Some(Ok::<MessageView, Seq<char>>(a)),
                CodecView::fresh(receiver),
                Seq::<u8>::empty(),
            )
            &&& a.typ == (if muted {
                MsgTyp::NACK(NACKKind::Blocked)
            } else {
                MsgTyp::ACK
            })
            &&& a.content == seq![m.msgnum]
            &&& a.from == client
        },
{
    let none = Seq::<u8>::empty();
    framing::round_trip(sender, none, m, none);
    assert(none + m.frame() + none =~= m.frame());
    let typ = if muted {
        MsgTyp::NACK(NACKKind::Blocked)
    } else {
        MsgTyp::ACK
    };
    answer_arrives(client, sender, receiver, typ, m.msgnum);
}

/// Whatever cannot be read is rejected, whoever sent it and whatever had been read before: nothing
/// is shown, and the sender gets an answer, can read it, and learns that something could not be
/// read.
pub proof fn unreadable_is_rejected(
    codec: CodecView,
    b: Seq<u8>,
    client: Seq<u8>,
    sender: AddrView,
    receiver: AddrView,
    muted: bool,
)
    requires
        codec.decode(b).0 matches Some(Err(_)),
        can_answer(client, sender),
    ensures
        codec.decode(b).0 matches Some(r) && {
            &&& peer::handling(r, client, sender, muted).show is None
            &&& peer::handling(r, client, sender, muted).report is Some
            &&& peer::handling(r, client, sender, muted).reply matches Some(a) && a.typ
                == MsgTyp::NACK(NACKKind::ParseError) && CodecView::fresh(receiver).decode(
                a.frame(),
            ) == (
                Some(Ok::<MessageView, Seq<char>>(a)),
                CodecView::fresh(receiver),
                Seq::<u8>::empty(),
            )
        },
{
    answer_arrives(client, sender, receiver, MsgTyp::NACK(NACKKind::ParseError), 0);
}

/// A message that does not arrive with the checksum of its bytes is rejected, whoever sent it: its
/// sender gets an answer, can read it, and learns that the message could not be read.
pub proof fn damaged_is_rejected(
    m: MessageView,
    crc: u32,
    client: Seq<u8>,
    sender: AddrView,
    receiver: AddrView,
    muted: bool,
)
    requires
        framing::writable(m),
        crc != wire::checksum(m.raw()),
        can_answer(client, sender),
    ensures
        CodecView::fresh(sender).decode(m.raw() + wire::be_bytes(crc)).0 matches Some(r) && {
            &&& r is Err
            &&& peer::handling(r, client, sender, muted).show is None
            &&& peer::handling(r, client, sender, muted).reply matches Some(a) && a.typ
                == MsgTyp::NACK(NACKKind::ParseError) && CodecView::fresh(receiver).decode(
                a.frame(),
            ) == (
                Some(Ok::<MessageView, Seq<char>>(a)),
                CodecView::fresh(receiver),
                Seq::<u8>::empty(),
            )
        },
{
    let none = Seq::<u8>::empty();
    framing::wrong_checksum_is_refused(sender, none, m, crc, none);
    assert(none + m.raw() + wire::be_bytes(crc) + none =~= m.raw() + wire::be_bytes(crc));
    unreadable_is_rejected(
        CodecView::fresh(sender),
        m.raw() + wire::be_bytes(crc),
        client,
        sender,
        receiver,
        muted,
    );
}

/// Whatever the user composes can be read by those who receive it, if the user goes by a name that
/// is text and no part is too long for its length to be written.
pub proof fn composed_can_be_read(
    before: MsgBuilder,
    after: MsgBuilder,
    term: TermView,
    audience: Seq<AddrView>,
    content: Seq<u8>,
    m: MessageView,
)
    requires
        before.builds_now(after, term.typ, term.published(audience), content, m),
        vstd::utf8::valid_utf8(before.username()),
        before.username().len() <= u32::MAX,
        term.published(audience).len() <= u32::MAX,
        content.len() <= u32::MAX,
    ensures
        framing::writable(m),
        m == m.sealed(),
        m.content == content,
{
    terminal::published_is_text(term, audience);
    assert(m.raw() == (MessageView { crc: 0, ..m }).raw());
}

/// What a message is answered, by its type. Private messages, broadcasts, blind broadcasts and
/// connection messages are answered by their number: confirmed, or rejected where the sender is
/// muted. Answers and goodbyes are not answered. Whatever its type, the message is shown unless the
/// sender is muted.
pub proof fn answers_by_type(m: MessageView, client: Seq<u8>, addr: AddrView, muted: bool)
    ensures
        ({
            let h = peer::handling(Ok(m), client, addr, muted);
            &&& match m.typ {
                MsgTyp::PM | MsgTyp::BC | MsgTyp::BBC | MsgTyp::Connect => {
                    &&& h.reply matches Some(a) && {
                        &&& a.typ == (if muted {
                            MsgTyp::NACK(NACKKind::Blocked)
                        } else {
                            MsgTyp::ACK
                        })
                        &&& a.content == seq![m.msgnum]
                        &&& a.msgnum == 0
                        &&& a.from == client
                        &&& a.to == vstd::utf8::encode_utf8(addr.text)
                        &&& a.crc == wire::checksum(a.raw())
                    }
                },
                MsgTyp::ACK | MsgTyp::NACK(_) | MsgTyp::Disconnect => h.reply is None,
            }
            &&& muted ==> h.show is None
            &&& !muted ==> h.show == Some(m)
            &&& h.report is None
        }),
{
    let h = peer::handling(Ok(m), client, addr, muted);
    match h.reply {
        Some(a) => {
            assert(a.raw() == (MessageView { crc: 0, ..a }).raw());
        },
        None => {},
    }
}

/// What is said of something that could not be read: the user is told from where it came and what
/// was wrong, and the sender is told that something could not be read, but not what.
pub proof fn faults_are_told(e: Seq<char>, client: Seq<u8>, addr: AddrView, muted: bool)
    ensures
        ({
            let h = peer::handling(Err(e), client, addr, muted);
            &&& h.report == Some("Error parsing message from "@ + addr.text + ". Error: "@ + e)
            &&& h.show is None
            &&& h.reply matches Some(a) && {
                &&& a.typ == MsgTyp::NACK(NACKKind::ParseError)
                &&& a.content == seq![0u8]
                &&& a.msgnum == 0
                &&& a.from == client
                &&& a.to == vstd::utf8::encode_utf8(addr.text)
                &&& a.crc == wire::checksum(a.raw())
            }
        }),
{
    let h = peer::handling(Err(e), client, addr, muted);
    match h.reply {
        Some(a) => {
            assert(a.raw() == (MessageView { crc: 0, ..a }).raw());
        },
        None => {},
    }
}

/// Whether a message is answered does not depend on who sent it, what it says or whether the sender
/// is muted, but on its type alone.
pub proof fn type_decides_whether_to_answer(
    m: MessageView,
    other: MessageView,
    client: Seq<u8>,
    addr: AddrView,
    other_addr: AddrView,
    muted: bool,
    other_muted: bool,
)
    requires
        m.typ == other.typ,
    ensures
        peer::handling(Ok(m), client, addr, muted).reply is Some <==> peer::handling(
            Ok(other),
            client,
            other_addr,
            other_muted,
        ).reply is Some,
{
}

/// A message teaches the name of its sender and nothing else: the volume of the peer stays, and so
/// does everything about other peers and other names. What could not be read teaches nothing.
pub proof fn only_the_name_is_learnt(
    peers: Map<AddrView, ConfigView>,
    users: Map<Seq<u8>, AddrView>,
    r: Result<MessageView, Seq<char>>,
    addr: AddrView,
    other: AddrView,
    name: Seq<u8>,
)
    requires
        peers.dom().contains(addr),
    ensures
        ({
            let (p, u) = (
                peer::peers_after(peers, r, addr),
                peer::users_after(users, peers, r, addr),
            );
            &&& p.dom().contains(addr) && p[addr].vol == peers[addr].vol && p[addr].addr
                == peers[addr].addr
            &&& other != addr ==> p.dom().contains(other) == peers.dom().contains(other)
                && p[other] == peers[other]
            &&& match r {
                Ok(m) => {
                    &&& p[addr].username == m.from
                    &&& peers[addr].username != m.from ==> u.dom().contains(m.from) && u[m.from]
                        == addr
                    &&& peers[addr].username == m.from ==> u == users
                    &&& name != m.from ==> u.dom().contains(name) == users.dom().contains(name)
                        && u[name] == users[name]
                },
                Err(_) => p == peers && u == users,
            }
        }),
{
}

/// A peer who connects is in the book from then on. A stranger enters it without a name and at the
/// usual volume; what is known of anyone stays.
pub proof fn strangers_enter_the_book(
    peers: Map<AddrView, ConfigView>,
    addr: AddrView,
    other: AddrView,
)
    ensures
        ({
            let p = peer::welcomed(peers, addr);
            &&& p.dom().contains(addr)
            &&& !peers.dom().contains(addr) ==> p[addr].username.len() == 0 && p[addr].vol
                == PeerVolume::Normal && p[addr].addr == addr
            &&& peers.dom().contains(other) ==> p.dom().contains(other) && p[other]
                == peers[other]
            &&& p.dom().contains(other) ==> other == addr || peers.dom().contains(other)
        }),
{
}

/// Setting the volume of a peer sets that and nothing else. A stranger enters the book with it.
pub proof fn one_volume_is_set(
    peers: Map<AddrView, ConfigView>,
    addr: AddrView,
    vol: PeerVolume,
    other: AddrView,
)
    ensures
        ({
            let p = peer::with_volume(peers, addr, vol);
            &&& p.dom().contains(addr) && p[addr].vol == vol
            &&& peers.dom().contains(addr) ==> p[addr].username == peers[addr].username
                && p[addr].addr == peers[addr].addr
            &&& !peers.dom().contains(addr) ==> p[addr].username.len() == 0 && p[addr].addr == addr
            &&& other != addr ==> p.dom().contains(other) == peers.dom().contains(other)
                && p[other] == peers[other]
        }),
{
}

} // verus!
