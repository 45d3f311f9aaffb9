//! The peers: who is connected, who goes by which name, and how loud they may be.

use crate::addr::{Addr, AddrView};
use crate::assoc::{AssocMap, Key};
use crate::buffers;
use crate::framing;
use crate::message;
use crate::message::{Message, MessageView, MsgTyp, NACKKind};
use bytes::Bytes;
use vstd::prelude::*;
use vstd::string::StringExecFns;

verus! {

/// Which messages of a peer are shown.
#[derive(Clone, Copy, Debug, PartialEq, Eq, Structural)]
pub enum PeerVolume {
    /// All messages, answers included.
    Loud,
    /// All broadcast, directed and connection messages.
    Normal,
    /// Only directed messages.
    Quiet,
    /// No messages.
    Mute,
}

/// What the user has settled about a peer, and the name that the peer goes by.
#[derive(Debug)]
pub struct PeerConfig {
    /// The address of the peer.
    pub addr: Addr,
    /// The name that the peer goes by at this address.
    pub username: Bytes,
    /// Which messages of the peer are shown.
    pub vol: PeerVolume,
}

/// What a [`PeerConfig`] stands for.
pub struct ConfigView {
    pub addr: AddrView,
    pub username: Seq<u8>,
    pub vol: PeerVolume,
}

impl ConfigView {
    /// What holds of a peer of whom nothing is known.
    pub open spec fn unknown(addr: AddrView) -> ConfigView {
        ConfigView { addr, username: Seq::empty(), vol: PeerVolume::Normal }
    }
}

impl View for PeerConfig {
    type V = ConfigView;

    open spec fn view(&self) -> ConfigView {
        ConfigView { addr: self.addr@, username: buffers::octets(self.username), vol: self.vol }
    }
}

impl PeerConfig {
    /// A peer of whom nothing is known: without a name, and at the usual volume.
    pub fn new(addr: Addr) -> (r: PeerConfig)
        ensures
            r@ == ConfigView::unknown(addr@),
    {
        PeerConfig { addr, username: Bytes::new(), vol: PeerVolume::Normal }
    }
}

impl Key for Bytes {
    type K = Seq<u8>;

    open spec fn key(&self) -> Seq<u8> {
        buffers::octets(*self)
    }

    fn same(&self, other: &Self) -> (r: bool) {
        *self == *other
    }

    fn copied(&self) -> (r: Self) {
        self.clone()
    }
}

/// Whether a list holds every element of a set, each once, and nothing else.
pub open spec fn once_each(list: Seq<AddrView>, set: Set<AddrView>) -> bool {
    &&& list.no_duplicates()
    &&& forall|a: AddrView| list.contains(a) <==> set.contains(a)
}

/// The open connections: what to send through to each connected address.
#[derive(Debug)]
pub struct SockMap<S> {
    pub inner: AssocMap<Addr, S>,
}

impl<S> SockMap<S> {
    /// The addresses with an open connection.
    pub open spec fn connected(self) -> Set<AddrView> {
        self.inner@.dom()
    }

    /// The addresses with an open connection, each once.
    pub open spec fn connected_list(self) -> Seq<AddrView> {
        self.inner.key_list()
    }
}

/// What is known of each peer.
#[derive(Debug)]
pub struct PeerMap {
    pub inner: AssocMap<Addr, PeerConfig>,
}

impl View for PeerMap {
    type V = Map<AddrView, ConfigView>;

    open spec fn view(&self) -> Map<AddrView, ConfigView> {
        self.inner@.map_values(|conf: PeerConfig| conf@)
    }
}

/// The address that goes with each name.
#[derive(Debug)]
pub struct UserMap {
    pub inner: AssocMap<Bytes, Addr>,
}

impl View for UserMap {
    type V = Map<Seq<u8>, AddrView>;

    open spec fn view(&self) -> Map<Seq<u8>, AddrView> {
        self.inner@.map_values(|addr: Addr| addr@)
    }
}

/// What is known of a peer, be it nothing.
pub open spec fn config_of(peers: Map<AddrView, ConfigView>, addr: AddrView) -> ConfigView {
    if peers.dom().contains(addr) {
        peers[addr]
    } else {
        ConfigView::unknown(addr)
    }
}

/// Whether the user has blocked a peer.
pub open spec fn is_blocked(peers: Map<AddrView, ConfigView>, addr: AddrView) -> bool {
    config_of(peers, addr).vol is Mute
}

/// Those of some addresses whose peers are not blocked, in the same order.
pub open spec fn unblocked(peers: Map<AddrView, ConfigView>, addrs: Seq<AddrView>) -> Seq<
    AddrView,
> {
    addrs.filter(|a: AddrView| !is_blocked(peers, a))
}

/// Those of a set of addresses whose peers are not blocked.
pub open spec fn open_to(peers: Map<AddrView, ConfigView>, addrs: Set<AddrView>) -> Set<AddrView> {
    addrs.filter(|a: AddrView| !is_blocked(peers, a))
}

/// A blocked peer is left out, and every other stays, as often as before.
pub proof fn blocked_are_left_out(peers: Map<AddrView, ConfigView>, addrs: Seq<AddrView>)
    ensures
        forall|a: AddrView|
            unblocked(peers, addrs).contains(a) <==> addrs.contains(a) && !is_blocked(peers, a),
        addrs.no_duplicates() ==> unblocked(peers, addrs).no_duplicates(),
    decreases addrs.len(),
{
    reveal(Seq::filter);
    let list = unblocked(peers, addrs);
    if addrs.len() > 0 {
        let (front, last) = (addrs.drop_last(), addrs.last());
        let rest = unblocked(peers, front);
        blocked_are_left_out(peers, front);
        assert(addrs =~= front.push(last));
        assert forall|a: AddrView|
            list.contains(a) <==> addrs.contains(a) && !is_blocked(peers, a) by {
            if rest.contains(a) {
                assert(list[rest.index_of(a)] == a);
                assert(addrs[front.index_of(a)] == a);
            }
            if a == last {
                assert(addrs[addrs.len() - 1] == a);
                if !is_blocked(peers, a) {
                    assert(list[list.len() - 1] == a);
                }
            }
            if addrs.contains(a) && a != last {
                assert(front[addrs.index_of(a)] == a);
            }
            if list.contains(a) && a != last {
                assert(rest[list.index_of(a)] == a);
            }
        }
        if addrs.no_duplicates() {
            assert(front.no_duplicates());
            assert(!front.contains(last)) by {
                if front.contains(last) {
                    assert(addrs[front.index_of(last)] == addrs[addrs.len() - 1]);
                }
            }
            assert(!rest.contains(last));
        }
    }
}

/// The peers, once one of them has been given a volume.
pub open spec fn with_volume(
    peers: Map<AddrView, ConfigView>,
    addr: AddrView,
    vol: PeerVolume,
) -> Map<AddrView, ConfigView> {
    peers.insert(addr, ConfigView { vol, ..config_of(peers, addr) })
}

/// The peers, once one of them has connected.
pub open spec fn welcomed(peers: Map<AddrView, ConfigView>, addr: AddrView) -> Map<
    AddrView,
    ConfigView,
> {
    if peers.dom().contains(addr) {
        peers
    } else {
        peers.insert(addr, ConfigView::unknown(addr))
    }
}

impl PeerMap {
    fn put(&mut self, addr: &Addr, conf: PeerConfig)
        ensures
            final(self)@ == old(self)@.insert(addr@, conf@),
    {
        self.inner.insert(addr.clone(), conf);
        assert(self@ =~= old(self)@.insert(addr@, conf@));
    }

    /// Makes sure that a peer who connects is in the book. What is known of the peer stays.
    pub fn welcome(&mut self, addr: &Addr)
        ensures
            final(self)@ == welcomed(old(self)@, addr@),
    {
        if !self.inner.contains_key(addr) {
            self.put(addr, PeerConfig::new(addr.clone()));
        }
    }

    /// Sets the volume of a peer, whether or not the peer is in the book.
    pub fn set_volume(&mut self, addr: &Addr, vol: PeerVolume)
        ensures
            final(self)@ == with_volume(old(self)@, addr@, vol),
    {
        let conf = match self.inner.get(addr) {
            None => PeerConfig { vol, ..PeerConfig::new(addr.clone()) },
            Some(conf) => {
                PeerConfig { addr: conf.addr.clone(), username: conf.username.clone(), vol }
            },
        };
        self.put(addr, conf);
    }
}

/// What to do about something that was received.
pub struct Handling {
    /// The message to show to the user.
    pub show: Option<Message>,
    /// The message to send back.
    pub reply: Option<Message>,
    /// What to report as an error.
    pub report: Option<String>,
}

/// What a [`Handling`] stands for.
pub struct HandlingView {
    pub show: Option<MessageView>,
    pub reply: Option<MessageView>,
    pub report: Option<Seq<char>>,
}

impl View for Handling {
    type V = HandlingView;

    open spec fn view(&self) -> HandlingView {
        HandlingView {
            show: match self.show {
                Some(m) => Some(m@),
                None => None,
            },
            reply: match self.reply {
                Some(m) => Some(m@),
                None => None,
            },
            report: match self.report {
                Some(s) => Some(s@),
                None => None,
            },
        }
    }
}

/// What a result of decoding stands for.
pub open spec fn received(r: Result<Message, String>) -> Result<MessageView, Seq<char>> {
    match r {
        Ok(m) => Ok(m@),
        Err(e) => Err(e@),
    }
}

/// Whether a message of this type is answered. Answers are not, and neither is a peer who leaves.
pub open spec fn is_answered(typ: MsgTyp) -> bool {
    !typ.answers() && !(typ is Disconnect)
}

/// Whether something that was received is answered: messages unless their type forbids it, and
/// whatever could not be read.
pub open spec fn owes_reply(r: Result<MessageView, Seq<char>>) -> bool {
    r matches Ok(m) ==> is_answered(m.typ)
}

/// An answer. Answers are not numbered: their number is 0. Their content names the message that
/// they answer.
pub open spec fn answer(client: Seq<u8>, addr: AddrView, typ: MsgTyp, msgnum: u8) -> MessageView {
    (MessageView {
        typ,
        msgnum: 0,
        from: client,
        to: vstd::utf8::encode_utf8(addr.text),
        content: seq![msgnum],
        crc: 0,
    }).sealed()
}

/// What to do about something that was received from `addr`. A message is confirmed and shown,
/// unless its sender is muted: then it is rejected and not shown. What could not be read is
/// rejected and reported.
pub open spec fn handling(
    r: Result<MessageView, Seq<char>>,
    client: Seq<u8>,
    addr: AddrView,
    muted: bool,
) -> HandlingView {
    match r {
        Ok(m) => HandlingView {
            show: if muted {
                None
            } else {
                Some(m)
            },
            reply: if !is_answered(m.typ) {
                None
            } else if muted {
                Some(answer(client, addr, MsgTyp::NACK(NACKKind::Blocked), m.msgnum))
            } else {
                Some(answer(client, addr, MsgTyp::ACK, m.msgnum))
            },
            report: None,
        },
        Err(e) => HandlingView {
            show: None,
            reply: Some(answer(client, addr, MsgTyp::NACK(NACKKind::ParseError), 0)),
            report: Some("Error parsing message from "@ + addr.text + ". Error: "@ + e),
        },
    }
}

/// What is known of the peers, once something was received: a message tells the name of its
/// sender.
pub open spec fn peers_after(
    peers: Map<AddrView, ConfigView>,
    r: Result<MessageView, Seq<char>>,
    addr: AddrView,
) -> Map<AddrView, ConfigView> {
    match r {
        Ok(m) => peers.insert(addr, ConfigView { username: m.from, ..peers[addr] }),
        Err(_) => peers,
    }
}

/// Which address goes with each name, once something was received: a name that is new at an address
/// goes with it from then on.
pub open spec fn users_after(
    users: Map<Seq<u8>, AddrView>,
    peers: Map<AddrView, ConfigView>,
    r: Result<MessageView, Seq<char>>,
    addr: AddrView,
) -> Map<Seq<u8>, AddrView> {
    match r {
        Ok(m) => if peers[addr].username != m.from {
            users.insert(m.from, addr)
        } else {
            users
        },
        Err(_) => users,
    }
}

/// Decides what to do about something that was received from `addr`, and learns the name of the
/// sender from it. A peer from whom a message comes is in the book: see [`PeerMap::welcome`].
pub fn handle_message(
    msg_or_err: Result<Message, String>,
    client: Bytes,
    addr: Addr,
    peer_map: &mut PeerMap,
    user_map: &mut UserMap,
) -> (r: Handling)
    requires
        msg_or_err is Ok ==> old(peer_map)@.dom().contains(addr@),
        owes_reply(received(msg_or_err)) ==> message::frameable(
            buffers::octets(client).len(),
            vstd::utf8::encode_utf8(addr@.text).len(),
            1,
        ),
    ensures
        r@ == handling(
            received(msg_or_err),
            buffers::octets(client),
            addr@,
            old(peer_map)@[addr@].vol is Mute,
        ),
        final(peer_map)@ == peers_after(old(peer_map)@, received(msg_or_err), addr@),
        final(user_map)@ == users_after(
            old(user_map)@,
            old(peer_map)@,
            received(msg_or_err),
            addr@,
        ),
        msg_or_err matches Ok(m) ==> {
            let muted = old(peer_map)@[addr@].vol == PeerVolume::Mute;
            &&& r.show is Some <==> !muted
            &&& r.show matches Some(s) ==> s@ == m@
            &&& r.reply is Some <==> m.typ == MsgTyp::PM || m.typ == MsgTyp::BC || m.typ
                == MsgTyp::BBC || m.typ == MsgTyp::Connect
            &&& r.reply matches Some(a) ==> a@.content == seq![m.msgnum] && a.typ == (if muted {
                MsgTyp::NACK(NACKKind::Blocked)
            } else {
                MsgTyp::ACK
            })
            &&& final(peer_map)@[addr@].vol == old(peer_map)@[addr@].vol
            &&& final(peer_map)@[addr@].username == m@.from
        },
        msg_or_err matches Err(e) ==> {
            &&& r.show is None
            &&& r.reply matches Some(a) && a.typ == MsgTyp::NACK(NACKKind::ParseError)
            &&& r.report matches Some(s) && s@ == "Error parsing message from "@ + addr@.text
                + ". Error: "@ + e@
            &&& final(peer_map)@ == old(peer_map)@
            &&& final(user_map)@ == old(user_map)@
        },
{
    let to = Bytes::from(addr.text.as_str().as_bytes());
    match msg_or_err {
        Ok(msg) => {
            let mut typ = MsgTyp::ACK;
            let mut show: Option<Message> = None;
            let (known, muted, renamed) = match peer_map.inner.get(&addr) {
                None => {
                    assert(false);
                    (PeerConfig::new(addr.clone()), false, false)
                },
                Some(conf) => {
                    let renamed = PeerConfig {
                        addr: conf.addr.clone(),
                        username: msg.from.clone(),
                        vol: conf.vol,
                    };
                    (renamed, conf.vol == PeerVolume::Mute, conf.username != msg.from)
                },
            };
            if muted {
                typ = MsgTyp::NACK(NACKKind::Blocked);
            } else {
                show = Some(msg.clone());
            }
            if renamed {
                peer_map.put(&addr, known);
                user_map.inner.insert(msg.from.clone(), addr.clone());
            }
            assert(peer_map@ =~= peers_after(old(peer_map)@, Ok(msg@), addr@));
            assert(user_map@ =~= users_after(old(user_map)@, old(peer_map)@, Ok(msg@), addr@));
            let reply = match msg.typ {
                MsgTyp::ACK | MsgTyp::NACK(_) | MsgTyp::Disconnect => None,
                _ => Some(reply_to(typ, client, to, msg.msgnum)),
            };
            Handling { show, reply, report: None }
        },
        Err(message) => {
            let mut report = "Error parsing message from ".to_string();
            report.append(addr.text.as_str());
            report.append(". Error: ");
            report.append(message.as_str());
            let reply = reply_to(MsgTyp::NACK(NACKKind::ParseError), client, to, 0);
            Handling { show: None, reply: Some(reply), report: Some(report) }
        },
    }
}

/// Makes an answer.
fn reply_to(typ: MsgTyp, client: Bytes, to: Bytes, msgnum: u8) -> (r: Message)
    requires
        message::frameable(buffers::octets(client).len(), buffers::octets(to).len(), 1),
    ensures
        r@ == (MessageView {
            typ,
            msgnum: 0,
            from: buffers::octets(client),
            to: buffers::octets(to),
            content: seq![msgnum],
            crc: 0,
        }).sealed(),
{
    let content: [u8; 1] = [msgnum];
    let bytes: &[u8] = &content;
    assert(bytes@ =~= seq![msgnum]);
    let r = Message::new(typ, 0, client, to, Bytes::from(bytes));
    assert(r@.raw() == (MessageView { crc: 0, ..r@ }).raw());
    r
}

/// One recipient of a message that goes out.
pub struct Delivery {
    pub addr: Addr,
    /// Whether a connection has to be opened first.
    pub connect: bool,
}

/// Decides for each recipient of a message whether a connection has to be opened first.
pub fn deliveries<S>(addrs: &Vec<Addr>, sock_map: &SockMap<S>) -> (r: Vec<Delivery>)
    ensures
        r@.len() == addrs@.len(),
        forall|i: int|
            0 <= i < r@.len() ==> (#[trigger] r@[i]).addr@ == addrs@[i]@ && r@[i].connect
                == !sock_map.connected().contains(addrs@[i]@),
{
    let mut r: Vec<Delivery> = Vec::new();
    let mut i: usize = 0;
    while i < addrs.len()
        invariant
            i <= addrs@.len(),
            r@.len() == i,
            forall|j: int|
                0 <= j < r@.len() ==> (#[trigger] r@[j]).addr@ == addrs@[j]@ && r@[j].connect
                    == !sock_map.connected().contains(addrs@[j]@),
        decreases addrs@.len() - i,
    {
        let connect = !sock_map.inner.contains_key(&addrs[i]);
        r.push(Delivery { addr: addrs[i].clone(), connect });
        i += 1;
    }
    r
}

/// Whether the book and the names go together: what is known of a peer is filed under the peer's
/// address, and whoever goes by a name can be found by that name.
pub open spec fn in_order(
    peers: Map<AddrView, ConfigView>,
    users: Map<Seq<u8>, AddrView>,
) -> bool {
    forall|a: AddrView| #[trigger]
        peers.dom().contains(a) ==> {
            &&& peers[a].addr == a
            &&& peers[a].username.len() > 0 ==> users.dom().contains(peers[a].username)
        }
}

/// The book and the names go together at the start, and stay so when a peer connects, when the user
/// sets a volume, and when something is received.
pub proof fn stays_in_order(
    peers: Map<AddrView, ConfigView>,
    users: Map<Seq<u8>, AddrView>,
    addr: AddrView,
    vol: PeerVolume,
    r: Result<MessageView, Seq<char>>,
)
    ensures
        in_order(Map::empty(), Map::empty()),
        in_order(peers, users) ==> {
            &&& in_order(welcomed(peers, addr), users)
            &&& in_order(with_volume(peers, addr, vol), users)
            &&& in_order(
                peers_after(welcomed(peers, addr), r, addr),
                users_after(users, welcomed(peers, addr), r, addr),
            )
        },
{
}

/// Once a message has come from a peer under a name that is new at its address, the name stands for
/// that address.
pub proof fn new_name_is_learnt(
    peers: Map<AddrView, ConfigView>,
    users: Map<Seq<u8>, AddrView>,
    addr: AddrView,
    m: MessageView,
)
    requires
        peers.dom().contains(addr),
        peers[addr].username != m.from,
    ensures
        ({
            let after = users_after(users, peers, Ok(m), addr);
            &&& after.dom().contains(m.from)
            &&& after[m.from] == addr
            &&& peers_after(peers, Ok(m), addr)[addr].username == m.from
            &&& forall|name: Seq<u8>|
                name != m.from ==> after.dom().contains(name) == users.dom().contains(name)
                    && after[name] == users[name]
        }),
{
}

/// Answers are not answered: whoever receives an answer sends nothing back.
pub proof fn answers_end_there(
    r: Result<MessageView, Seq<char>>,
    client: Seq<u8>,
    addr: AddrView,
    muted: bool,
    peer: Seq<u8>,
    peer_addr: AddrView,
    peer_muted: bool,
)
    ensures
        handling(r, client, addr, muted).reply matches Some(a) ==> handling(
            Ok(a),
            peer,
            peer_addr,
            peer_muted,
        ).reply is None,
{
}

/// A message that is answered is answered by its number: confirmed if it was shown, and rejected if
/// it was not.
pub proof fn answers_tell_what_happened(
    m: MessageView,
    client: Seq<u8>,
    addr: AddrView,
    muted: bool,
)
    ensures
        handling(Ok(m), client, addr, muted).reply matches Some(a) ==> {
            &&& a.content == seq![m.msgnum]
            &&& a == a.sealed()
            &&& a.typ is ACK <==> handling(Ok(m), client, addr, muted).show == Some(m)
            &&& a.typ is NACK <==> muted
        },
{
    match handling(Ok(m), client, addr, muted).reply {
        Some(a) => {
            assert(a.raw() == (MessageView { crc: 0, ..a }).raw());
        },
        None => {},
    }
}

/// Whoever is sent an answer can read it, if the client goes by a name that is text.
pub proof fn answers_can_be_read(client: Seq<u8>, addr: AddrView, typ: MsgTyp, msgnum: u8)
    requires
        vstd::utf8::valid_utf8(client),
        client.len() <= u32::MAX,
        vstd::utf8::encode_utf8(addr.text).len() <= u32::MAX,
    ensures
        framing::writable(answer(client, addr, typ, msgnum)),
{
    vstd::utf8::encode_utf8_valid_utf8(addr.text);
}

} // verus!
