use bytes::Bytes;
use chatter::addr::{Addr, Host};
use chatter::assoc::AssocMap;
use chatter::message::{Message, MsgTyp, NACKKind};
use chatter::peer::{
    deliveries, handle_message, PeerConfig, PeerMap, PeerVolume, SockMap, UserMap,
};

fn addr(last: u8, port: u16) -> Addr {
    Addr {
        host: Host::V4(0x0a00_0000 + last as u32),
        port,
        text: format!("10.0.0.{}:{}", last, port),
    }
}

fn bytes(s: &str) -> Bytes {
    Bytes::from(s.as_bytes())
}

fn peers() -> PeerMap {
    PeerMap { inner: AssocMap::new() }
}

fn users() -> UserMap {
    UserMap { inner: AssocMap::new() }
}

fn msg(typ: MsgTyp) -> Message {
    Message::new(typ, 9, bytes("ann"), bytes(""), bytes("hi"))
}

#[test]
fn maps_keep_one_entry_per_key() {
    let mut m: AssocMap<Addr, u32> = AssocMap::new();
    assert!(m.get(&addr(1, 1)).is_none());
    m.insert(addr(1, 1), 10);
    m.insert(addr(2, 1), 20);
    m.insert(addr(1, 2), 30);
    m.insert(addr(1, 1), 11);
    assert_eq!(m.get(&addr(1, 1)), Some(&11));
    assert_eq!(m.get(&addr(2, 1)), Some(&20));
    assert_eq!(m.keys().len(), 3);
    m.remove(&addr(1, 1));
    m.remove(&addr(9, 9));
    assert!(!m.contains_key(&addr(1, 1)));
    assert!(m.contains_key(&addr(2, 1)));
    assert_eq!(m.get(&addr(1, 2)), Some(&30));
    assert_eq!(m.keys().len(), 2);
}

#[test]
fn addresses_differ_in_any_part() {
    let mut m: AssocMap<Addr, u32> = AssocMap::new();
    let v6 = |flowinfo: u32, scope_id: u32| Addr {
        host: Host::V6 { bits: 1, flowinfo, scope_id },
        port: 1,
        text: "[::1]:1".to_string(),
    };
    m.insert(v6(0, 0), 1);
    assert!(m.contains_key(&v6(0, 0)));
    assert!(!m.contains_key(&v6(1, 0)));
    assert!(!m.contains_key(&v6(0, 1)));
}

#[test]
fn names_are_keys_by_their_bytes() {
    let mut u = users();
    u.inner.insert(bytes("ann"), addr(1, 1));
    assert_eq!(u.inner.get(&Bytes::from(&b"ann"[..])).unwrap().text, "10.0.0.1:1");
    assert!(u.inner.get(&bytes("anne")).is_none());
}

#[test]
fn a_new_peer_is_unknown() {
    let c = PeerConfig::new(addr(1, 1));
    assert!(c.username.is_empty());
    assert_eq!(c.vol, PeerVolume::Normal);
    assert_eq!(c.addr.text, "10.0.0.1:1");
}

#[test]
fn welcome_keeps_what_is_known() {
    let mut p = peers();
    p.welcome(&addr(1, 1));
    assert_eq!(p.inner.get(&addr(1, 1)).unwrap().vol, PeerVolume::Normal);
    p.set_volume(&addr(1, 1), PeerVolume::Quiet);
    p.welcome(&addr(1, 1));
    assert_eq!(p.inner.get(&addr(1, 1)).unwrap().vol, PeerVolume::Quiet);
}

#[test]
fn messages_are_confirmed_shown_and_noted() {
    let (mut p, mut u) = (peers(), users());
    p.welcome(&addr(1, 1));
    let h = handle_message(Ok(msg(MsgTyp::PM)), bytes("bob"), addr(1, 1), &mut p, &mut u);
    let reply = h.reply.unwrap();
    assert_eq!(reply.typ, MsgTyp::ACK);
    assert_eq!(reply.msgnum, 0);
    assert_eq!(reply.from, bytes("bob"));
    assert_eq!(reply.to, bytes("10.0.0.1:1"));
    assert_eq!(reply.content, Bytes::from(&[9u8][..]));
    assert_eq!(h.show.unwrap().content, bytes("hi"));
    assert!(h.report.is_none());
    assert_eq!(p.inner.get(&addr(1, 1)).unwrap().username, bytes("ann"));
    assert_eq!(u.inner.get(&bytes("ann")).unwrap().text, "10.0.0.1:1");
}

#[test]
fn replies_carry_their_checksum() {
    let (mut p, mut u) = (peers(), users());
    p.welcome(&addr(1, 99));
    let h = handle_message(Ok(msg(MsgTyp::BC)), bytes("bob"), addr(1, 99), &mut p, &mut u);
    assert_eq!(h.reply.unwrap().crc, 0x909d_f0fe);
}

#[test]
fn muted_peers_are_rejected_and_not_shown() {
    let (mut p, mut u) = (peers(), users());
    p.set_volume(&addr(1, 1), PeerVolume::Mute);
    let h = handle_message(Ok(msg(MsgTyp::BC)), bytes("bob"), addr(1, 1), &mut p, &mut u);
    assert!(h.show.is_none());
    let reply = h.reply.unwrap();
    assert_eq!(reply.typ, MsgTyp::NACK(NACKKind::Blocked));
    assert_eq!(reply.content, Bytes::from(&[9u8][..]));
    assert_eq!(p.inner.get(&addr(1, 1)).unwrap().username, bytes("ann"));
    assert_eq!(p.inner.get(&addr(1, 1)).unwrap().vol, PeerVolume::Mute);
}

#[test]
fn answers_and_goodbyes_are_not_answered() {
    for typ in vec![MsgTyp::ACK, MsgTyp::NACK(NACKKind::Duplicate), MsgTyp::Disconnect] {
        let (mut p, mut u) = (peers(), users());
        p.welcome(&addr(1, 1));
        let h = handle_message(Ok(msg(typ)), bytes("bob"), addr(1, 1), &mut p, &mut u);
        assert!(h.reply.is_none());
        assert_eq!(h.show.unwrap().typ, typ);
    }
}

#[test]
fn what_cannot_be_read_is_rejected_and_reported() {
    let (mut p, mut u) = (peers(), users());
    let h = handle_message(
        Err("CRC check failed".to_string()),
        bytes("bob"),
        addr(1, 1),
        &mut p,
        &mut u,
    );
    assert!(h.show.is_none());
    let reply = h.reply.unwrap();
    assert_eq!(reply.typ, MsgTyp::NACK(NACKKind::ParseError));
    assert_eq!(reply.content, Bytes::from(&[0u8][..]));
    assert_eq!(
        h.report.unwrap(),
        "Error parsing message from 10.0.0.1:1. Error: CRC check failed"
    );
    assert!(p.inner.keys().is_empty());
    assert!(u.inner.keys().is_empty());
}

#[test]
fn a_known_name_stays_with_its_address() {
    let (mut p, mut u) = (peers(), users());
    p.welcome(&addr(1, 1));
    p.welcome(&addr(2, 2));
    let _ = handle_message(Ok(msg(MsgTyp::BC)), bytes("bob"), addr(1, 1), &mut p, &mut u);
    let _ = handle_message(Ok(msg(MsgTyp::BC)), bytes("bob"), addr(2, 2), &mut p, &mut u);
    assert_eq!(u.inner.get(&bytes("ann")).unwrap().text, "10.0.0.2:2");
    let _ = handle_message(Ok(msg(MsgTyp::BC)), bytes("bob"), addr(1, 1), &mut p, &mut u);
    assert_eq!(u.inner.get(&bytes("ann")).unwrap().text, "10.0.0.2:2");
}

#[test]
fn connections_are_opened_where_there_are_none() {
    let mut s: SockMap<u8> = SockMap { inner: AssocMap::new() };
    s.inner.insert(addr(1, 1), 0);
    let d = deliveries(&vec![addr(1, 1), addr(2, 2)], &s);
    assert_eq!(d.len(), 2);
    assert_eq!(d[0].addr.text, "10.0.0.1:1");
    assert!(!d[0].connect);
    assert_eq!(d[1].addr.text, "10.0.0.2:2");
    assert!(d[1].connect);
}

#[test]
fn ipv4_addresses_are_written_with_dots() {
    assert_eq!(Addr::v4(0x7f00_0001, 6667).text, "127.0.0.1:6667");
    assert_eq!(Addr::v4(0, 0).text, "0.0.0.0:0");
    assert_eq!(Addr::v4(u32::MAX, u16::MAX).text, "255.255.255.255:65535");
    let a = Addr::v4(0x0a0b_0c0d, 80);
    assert_eq!((a.host, a.port), (Host::V4(0x0a0b_0c0d), 80));
    assert_eq!(a.text, "10.11.12.13:80");
}

#[test]
fn ipv4_addresses_read_back() {
    for (bits, port) in vec![(0u32, 0u16), (0x0102_0304, 5), (0xc0a8_0a64, 10_203), (u32::MAX, 1)] {
        let text = Addr::v4(bits, port).text;
        let halves: Vec<&str> = text.split(':').collect();
        assert_eq!(halves.len(), 2);
        let read = halves[0]
            .split('.')
            .fold(0u32, |n, part| n * 256 + part.parse::<u32>().unwrap());
        assert_eq!(read, bits);
        assert_eq!(halves[1].parse::<u16>().unwrap(), port);
    }
}
