//! What values stand for: every part of a value counts, and nothing is added.

use crate::addr::{Addr, AddrView};
use crate::assoc::Key;
use crate::buffers;
use crate::codec;
use crate::commands;
use crate::commands::Word;
use crate::message;
use crate::message::Message;
use crate::peer;
use crate::peer::{Handling, PeerConfig, PeerMap, PeerVolume, SockMap, UserMap};
use crate::terminal;
use crate::terminal::{Roundtrip, RoundtripView};
use bytes::Bytes;
use vstd::prelude::*;

verus! {

/// A message stands for its parts.
pub proof fn messages(m: Message)
    ensures
        m@.typ == m.typ,
        m@.msgnum == m.msgnum,
        m@.from == buffers::octets(m.from),
        m@.to == buffers::octets(m.to),
        m@.content == buffers::octets(m.content),
        m@.crc == m.crc,
{
}

/// An address stands for its parts, and a list of addresses for its elements.
pub proof fn addresses(a: Addr, list: Seq<Addr>, i: int)
    ensures
        a@.host == a.host,
        a@.port == a.port,
        a@.text == a.text@,
        commands::addr_views(list).len() == list.len(),
        0 <= i < list.len() ==> commands::addr_views(list)[i] == list[i]@,
{
}

/// A word stands for its text and for the address that it can be read as, and a list of words for
/// its elements.
pub proof fn words(w: Word, list: Seq<Word>, i: int)
    ensures
        w@.text == w.text@,
        w.addr is None ==> w@.addr is None,
        w.addr matches Some(a) ==> w@.addr == Some(a@),
        commands::word_views(list).len() == list.len(),
        0 <= i < list.len() ==> commands::word_views(list)[i] == list[i]@,
{
}

/// What is known of a peer stands for its parts.
pub proof fn configurations(conf: PeerConfig)
    ensures
        conf@.addr == conf.addr@,
        conf@.username == buffers::octets(conf.username),
        conf@.vol == conf.vol,
{
}

/// The maps hold what was put into them.
pub proof fn maps(peers: PeerMap, users: UserMap, addr: AddrView, name: Seq<u8>)
    ensures
        peers@.dom().contains(addr) == peers.inner@.dom().contains(addr),
        peers@.dom().contains(addr) ==> peers@[addr] == peers.inner@[addr]@,
        users@.dom().contains(name) == users.inner@.dom().contains(name),
        users@.dom().contains(name) ==> users@[name] == users.inner@[name]@,
{
}

/// What there is to do stands for its parts.
pub proof fn handlings(h: Handling)
    ensures
        h.show is None <==> h@.show is None,
        h.show matches Some(m) ==> h@.show == Some(m@),
        h.reply is None <==> h@.reply is None,
        h.reply matches Some(m) ==> h@.reply == Some(m@),
        h.report is None <==> h@.report is None,
        h.report matches Some(s) ==> h@.report == Some(s@),
{
}

/// A roundtrip stands for its parts.
pub proof fn roundtrips(t: Roundtrip)
    ensures
        t is Unknown <==> t@ is Unknown,
        t matches Roundtrip::Took { secs, nanos } ==> t@ == RoundtripView::Took(secs, nanos),
        t matches Roundtrip::Failed(e) ==> t@ == RoundtripView::Failed(e@),
{
}

/// A result stands for what it holds, be it a value or an error.
pub proof fn results(m: Message, e: String, list: Vec<Addr>)
    ensures
        peer::received(Ok(m)) == Ok::<message::MessageView, Seq<char>>(m@),
        peer::received(Err(e)) == Err::<message::MessageView, Seq<char>>(e@),
        codec::outcome(None) is None,
        codec::outcome(Some(Ok(m))) == Some(Ok::<message::MessageView, Seq<char>>(m@)),
        codec::outcome(Some(Err(e))) == Some(Err::<message::MessageView, Seq<char>>(e@)),
        commands::peers_result(Ok(list)) == Ok::<Seq<AddrView>, Seq<char>>(
            commands::addr_views(list@),
        ),
        commands::peers_result(Err(e)) == Err::<Seq<AddrView>, Seq<char>>(e@),
{
}

/// A list that holds each element of a set once holds no other.
pub proof fn lists_of_sets(list: Seq<AddrView>, set: Set<AddrView>, addr: AddrView)
    ensures
        peer::once_each(list, set) ==> list.no_duplicates() && (list.contains(addr)
            <==> set.contains(addr)),
{
}

/// Those who are connected are those with an entry, and a complete audience holds each of them who
/// is not muted, once, and nobody else.
pub proof fn audiences<S>(sock_map: SockMap<S>, peer_map: PeerMap, addr: AddrView)
    ensures
        sock_map.connected().contains(addr) == sock_map.inner@.dom().contains(addr),
        sock_map.connected_list() == sock_map.inner.key_list(),
        terminal::audience_is_complete(sock_map, peer_map) ==> {
            let list = terminal::audience(sock_map, peer_map);
            &&& list.no_duplicates()
            &&& list.contains(addr) <==> sock_map.inner@.dom().contains(addr)
                && !(peer_map@.dom().contains(addr) && peer_map@[addr].vol == PeerVolume::Mute)
        },
{
}

/// Lengths are written with 32 bits, and what does not fit is cut off.
pub proof fn lengths(n: nat)
    ensures
        n <= u32::MAX ==> message::len32(n) == n,
        message::len32(n + 0x1_0000_0000) == message::len32(n),
{
}

/// Fields can be framed as long as a buffer can hold them, their lengths and the header.
pub proof fn limits(from: nat, to: nat, content: nat)
    ensures
        message::frameable(from, to, content) <==> 4 + (4 + from) + (4 + to) + (4 + content)
            <= isize::MAX,
{
}

/// A name is told from another by its bytes, all of them.
pub proof fn names(a: Bytes, b: Bytes)
    ensures
        Key::key(&a) == Key::key(&b) <==> buffers::octets(a)
            == buffers::octets(b),
{
}

} // verus!
