use bytes::{Bytes, BytesMut};
use chatter::addr::{Addr, Host};
use chatter::assoc::AssocMap;
use chatter::codec::MsgCodec;
use chatter::message::{Message, MsgBuilder, MsgTyp, NACKKind};
use chatter::peer::{handle_message, Handling, PeerMap, PeerVolume, UserMap};

fn addr(last: u8) -> Addr {
    Addr {
        host: Host::V4(0x0a00_0000 + last as u32),
        port: 7,
        text: format!("10.0.0.{}:7", last),
    }
}

fn bytes(s: &str) -> Bytes {
    Bytes::from(s.as_bytes())
}

/// A client that answers whoever writes to it from one address.
struct Client {
    name: Bytes,
    peer: Addr,
    codec: MsgCodec,
    peers: PeerMap,
    users: UserMap,
}

fn client(name: &str, peer: Addr) -> Client {
    let mut peers = PeerMap { inner: AssocMap::new() };
    peers.welcome(&peer);
    Client {
        name: bytes(name),
        codec: MsgCodec::new(peer.clone()),
        peer,
        peers,
        users: UserMap { inner: AssocMap::new() },
    }
}

fn frame(m: &Message) -> BytesMut {
    let mut buf = BytesMut::new();
    MsgCodec::new(addr(9)).encode(m.clone(), &mut buf);
    buf
}

fn receive(c: &mut Client, mut buf: BytesMut) -> Handling {
    let got = c.codec.decode(&mut buf).unwrap();
    assert!(buf.is_empty());
    handle_message(got, c.name.clone(), c.peer.clone(), &mut c.peers, &mut c.users)
}

#[test]
fn a_message_is_confirmed_by_its_number() {
    let mut ann = client("ann", addr(2));
    let mut bob = client("bob", addr(1));
    let mut builder = MsgBuilder::new(bytes("ann"));
    let _ = builder.build(MsgTyp::BC, bytes(""), bytes("one"));
    let m = builder.build(MsgTyp::BC, bytes("10.0.0.2:7"), bytes("two"));
    let h = receive(&mut bob, frame(&m));
    assert_eq!(h.show.unwrap().content, bytes("two"));
    let h = receive(&mut ann, frame(&h.reply.unwrap()));
    let answer = h.show.unwrap();
    assert_eq!(answer.typ, MsgTyp::ACK);
    assert_eq!(&answer.content[..], &[2]);
    assert_eq!(answer.from, bytes("bob"));
    assert!(h.reply.is_none());
    assert!(builder.sent_at(answer.content[0]).is_some());
}

#[test]
fn a_muted_sender_learns_of_it() {
    let mut ann = client("ann", addr(2));
    let mut bob = client("bob", addr(1));
    bob.peers.set_volume(&addr(1), PeerVolume::Mute);
    let m = Message::new(MsgTyp::PM, 5, bytes("ann"), bytes(""), bytes("hi"));
    let h = receive(&mut bob, frame(&m));
    assert!(h.show.is_none());
    let h = receive(&mut ann, frame(&h.reply.unwrap()));
    let answer = h.show.unwrap();
    assert_eq!(answer.typ, MsgTyp::NACK(NACKKind::Blocked));
    assert_eq!(&answer.content[..], &[5]);
}

#[test]
fn a_damaged_message_is_rejected() {
    let mut ann = client("ann", addr(2));
    let mut bob = client("bob", addr(1));
    let m = Message::new(MsgTyp::PM, 5, bytes("ann"), bytes(""), bytes("hi"));
    let mut sent = frame(&m).to_vec();
    let last = sent.len() - 1;
    sent[last] ^= 0x80;
    let h = receive(&mut bob, BytesMut::from(&sent[..]));
    assert!(h.show.is_none());
    assert_eq!(
        h.report.unwrap(),
        "Error parsing message from 10.0.0.1:7. Error: CRC check failed"
    );
    let h = receive(&mut ann, frame(&h.reply.unwrap()));
    assert_eq!(h.show.unwrap().typ, MsgTyp::NACK(NACKKind::ParseError));
    assert!(h.reply.is_none());
}

#[test]
fn book_and_names_go_together() {
    let mut bob = client("bob", addr(1));
    for name in vec!["ann", "anne", "ann"] {
        let m = Message::new(MsgTyp::BC, 5, bytes(name), bytes(""), bytes("hi"));
        let _ = receive(&mut bob, frame(&m));
        bob.peers.set_volume(&addr(1), PeerVolume::Quiet);
        bob.peers.welcome(&addr(1));
        let conf = bob.peers.inner.get(&addr(1)).unwrap();
        assert_eq!(conf.addr.text, "10.0.0.1:7");
        assert_eq!(conf.username, bytes(name));
        assert_eq!(bob.users.inner.get(&bytes(name)).unwrap().text, "10.0.0.1:7");
    }
    assert_eq!(bob.users.inner.keys().len(), 2);
}

#[test]
fn every_fault_is_rejected() {
    for sent in vec![
        &[0xaa, 0x55, 99][..],
        &[0xaa, 0x55, 1, 1, 0, 0, 0, 1, 0xff][..],
        &[0xaa, 0x55, 1, 1, 0, 0, 0, 0, 0, 0, 0, 1, 0xff][..],
    ] {
        let mut ann = client("ann", addr(2));
        let mut bob = client("bob", addr(1));
        let mut buf = BytesMut::from(sent);
        let got = bob.codec.decode(&mut buf).unwrap();
        assert!(got.is_err());
        let h = handle_message(got, bytes("bob"), addr(1), &mut bob.peers, &mut bob.users);
        assert!(h.show.is_none());
        assert!(h.report.is_some());
        let h = receive(&mut ann, frame(&h.reply.unwrap()));
        assert_eq!(h.show.unwrap().typ, MsgTyp::NACK(NACKKind::ParseError));
    }
}
