use bytes::{Bytes, BytesMut};
use chatter::addr::{Addr, Host};
use chatter::codec::{checked, field_fault, put_frame, MsgCodec};
use chatter::message::{
    byte_to_typ, len_to_bytes, typ_to_byte, Message, MsgBuilder, MsgTyp, NACKKind, HDR, HDR_0,
    HDR_1,
};
use std::time::{Duration, SystemTime};

fn addr(last: u8, port: u16) -> Addr {
    Addr {
        host: Host::V4(0x0102_0300 + last as u32),
        port,
        text: format!("1.2.3.{}:{}", last, port),
    }
}

fn bytes(s: &str) -> Bytes {
    Bytes::from(s.as_bytes())
}

fn sample() -> Message {
    Message::new(MsgTyp::BC, 7, bytes("ann"), bytes("1.2.3.4:5"), bytes("hi"))
}

fn sample_frame() -> Vec<u8> {
    let mut v: Vec<u8> = vec![0xaa, 0x55, 2, 7, 0, 0, 0, 3];
    v.extend_from_slice(b"ann");
    v.extend_from_slice(&[0, 0, 0, 9]);
    v.extend_from_slice(b"1.2.3.4:5");
    v.extend_from_slice(&[0, 0, 0, 2]);
    v.extend_from_slice(b"hi");
    v.extend_from_slice(&[0xff, 0xe4, 0x5a, 0x53]);
    v
}

fn codec() -> MsgCodec {
    MsgCodec::new(addr(4, 5))
}

fn same(a: &Message, b: &Message) -> bool {
    a.typ == b.typ
        && a.msgnum == b.msgnum
        && a.from == b.from
        && a.to == b.to
        && a.content == b.content
        && a.crc == b.crc
}

fn read(c: &mut MsgCodec, buf: &mut BytesMut) -> Message {
    match c.decode(buf) {
        Some(Ok(m)) => m,
        other => panic!("{:?}", other),
    }
}

#[test]
fn header_is_a_palindrome() {
    assert_eq!(HDR, [0xaa, 0x55]);
    assert_eq!([HDR_0, HDR_1], HDR);
    let bits = ((HDR_0 as u16) << 8) | HDR_1 as u16;
    assert_eq!(bits, bits.reverse_bits());
}

#[test]
fn types_and_codes_are_inverse() {
    let all = vec![
        (MsgTyp::PM, 1u8),
        (MsgTyp::BC, 2),
        (MsgTyp::BBC, 3),
        (MsgTyp::Connect, 20),
        (MsgTyp::Disconnect, 21),
        (MsgTyp::ACK, 40),
        (MsgTyp::NACK(NACKKind::Blocked), 41),
        (MsgTyp::NACK(NACKKind::ParseError), 42),
        (MsgTyp::NACK(NACKKind::Duplicate), 43),
    ];
    for (typ, code) in &all {
        assert_eq!(typ_to_byte(typ), *code);
        assert_eq!(byte_to_typ(code), Ok(*typ));
    }
    for b in 0..=255u8 {
        if all.iter().all(|(_, code)| *code != b) {
            assert_eq!(byte_to_typ(&b), Err(format!("Unknown message code {}", b)));
        }
    }
}

#[test]
fn types_in_words() {
    assert_eq!(MsgTyp::PM.to_string(), "sent");
    assert_eq!(MsgTyp::BC.to_string(), "broadcast");
    assert_eq!(MsgTyp::BBC.to_string(), "blind broadcast");
    assert_eq!(MsgTyp::Connect.to_string(), "connected");
    assert_eq!(MsgTyp::Disconnect.to_string(), "disconnected");
    assert_eq!(MsgTyp::ACK.to_string(), "confirmed message");
    assert_eq!(MsgTyp::NACK(NACKKind::Blocked).to_string(), "rejected message (blocked)");
    assert_eq!(
        MsgTyp::NACK(NACKKind::ParseError).to_string(),
        "rejected message (message parse failed)"
    );
    assert_eq!(
        MsgTyp::NACK(NACKKind::Duplicate).to_string(),
        "rejected message (duplicate message)"
    );
}

#[test]
fn lengths_are_big_endian() {
    assert_eq!(len_to_bytes(0), [0, 0, 0, 0]);
    assert_eq!(len_to_bytes(0x0102_0304), [1, 2, 3, 4]);
    assert_eq!(len_to_bytes(0xffff_ffff), [255, 255, 255, 255]);
}

#[test]
fn long_lengths_are_cut_off() {
    assert_eq!(len_to_bytes((0x5u64 << 32) as usize + 258), [0, 0, 1, 2]);
}

#[test]
fn raw_bytes_and_checksum() {
    let mut m = sample();
    let frame = sample_frame();
    let (raw, crc) = m.raw();
    assert_eq!(&raw[..], &frame[..30]);
    assert_eq!(crc, 0xffe4_5a53);
    assert_eq!(m.crc, 0xffe4_5a53);
}

#[test]
fn display_of_messages() {
    assert_eq!(sample().display(), b"[ann broadcast]: hi".to_vec());
    let ack = Message::new(MsgTyp::ACK, 0, bytes("bob"), bytes(""), Bytes::from(&[9u8][..]));
    assert_eq!(ack.display(), b"[bob confirmed message]".to_vec());
    let odd = Message::new(MsgTyp::PM, 0, bytes("bob"), bytes(""), Bytes::from(&[0xffu8, 1][..]));
    assert_eq!(odd.display(), b"[bob sent]: \xff\x01".to_vec());
}

#[test]
fn encode_writes_the_frame() {
    let mut dst = BytesMut::from(&b"before"[..]);
    codec().encode(sample(), &mut dst);
    let mut expected = b"before".to_vec();
    expected.extend_from_slice(&sample_frame());
    assert_eq!(&dst[..], &expected[..]);
}

#[test]
fn encode_grows_the_buffer() {
    let content: Vec<u8> = vec![7; 100_000];
    let m = Message::new(MsgTyp::PM, 1, bytes("ann"), bytes(""), Bytes::from(&content[..]));
    let mut dst = BytesMut::with_capacity(16);
    codec().encode(m.clone(), &mut dst);
    assert_eq!(dst.len(), 100_000 + 3 + 20);
    assert!(same(&read(&mut codec(), &mut dst), &m));
    assert!(dst.is_empty());
}

#[test]
fn encode_replaces_a_wrong_checksum() {
    let mut m = sample();
    m.crc = 1;
    let mut dst = BytesMut::new();
    codec().encode(m, &mut dst);
    assert_eq!(&dst[..], &sample_frame()[..]);
}

#[test]
fn round_trip_skips_junk_and_leaves_the_rest() {
    let mut c = codec();
    let mut buf = BytesMut::from(&b"junk\xaa"[..]);
    buf.extend_from_slice(&sample_frame());
    buf.extend_from_slice(b"rest");
    assert!(same(&read(&mut c, &mut buf), &sample()));
    assert_eq!(&buf[..], b"rest");
}

#[test]
fn two_messages_in_one_buffer() {
    let mut c = codec();
    let other = Message::new(MsgTyp::Connect, 8, bytes("ann"), bytes("x"), bytes(""));
    let mut buf = BytesMut::new();
    c.encode(sample(), &mut buf);
    c.encode(other.clone(), &mut buf);
    assert!(same(&read(&mut c, &mut buf), &sample()));
    assert!(same(&read(&mut c, &mut buf), &other));
    assert!(c.decode(&mut buf).is_none());
    assert!(buf.is_empty());
}

#[test]
fn byte_by_byte_arrival() {
    let mut c = codec();
    let frame = sample_frame();
    let mut buf = BytesMut::new();
    for (i, b) in frame.iter().enumerate() {
        buf.extend_from_slice(&[*b]);
        if i + 1 < frame.len() {
            assert!(c.decode(&mut buf).is_none());
        }
    }
    assert!(same(&read(&mut c, &mut buf), &sample()));
}

#[test]
fn a_copied_codec_goes_on_where_it_was() {
    let mut c = codec();
    let frame = sample_frame();
    let mut buf = BytesMut::from(&frame[..12]);
    assert!(c.decode(&mut buf).is_none());
    let mut d = c.clone();
    buf.extend_from_slice(&frame[12..]);
    let mut other = buf.clone();
    assert!(same(&read(&mut c, &mut buf), &sample()));
    assert!(same(&read(&mut d, &mut other), &sample()));
}

#[test]
fn nothing_without_a_header() {
    let mut c = codec();
    let mut buf = BytesMut::from(&b"\x55\xaa\xaa"[..]);
    assert!(c.decode(&mut buf).is_none());
    assert_eq!(&buf[..], b"\x55\xaa\xaa");
}

#[test]
fn unknown_type_is_refused_and_not_taken() {
    let mut c = codec();
    let mut buf = BytesMut::from(&[0xaa, 0x55, 99, 1, 2][..]);
    match c.decode(&mut buf) {
        Some(Err(e)) => assert_eq!(e, "Unknown message code 99"),
        other => panic!("{:?}", other),
    }
    assert_eq!(&buf[..], &[99, 1, 2]);
    buf.extend_from_slice(&sample_frame());
    assert!(same(&read(&mut c, &mut buf), &sample()));
}

#[test]
fn sender_must_be_text() {
    let mut c = codec();
    let mut buf = BytesMut::from(&[0xaa, 0x55, 1, 1, 0, 0, 0, 2, 0xff, 0x41, 0x42][..]);
    match c.decode(&mut buf) {
        Some(Err(e)) => assert_eq!(
            e,
            "Could not parse field as a string: invalid utf-8 sequence of 1 bytes from index 0"
        ),
        other => panic!("{:?}", other),
    }
    assert_eq!(&buf[..], &[0x42]);
}

#[test]
fn recipients_must_be_text() {
    let mut c = codec();
    let mut buf =
        BytesMut::from(&[0xaa, 0x55, 1, 1, 0, 0, 0, 1, 0x41, 0, 0, 0, 2, 0x41, 0xc3][..]);
    match c.decode(&mut buf) {
        Some(Err(e)) => assert_eq!(
            e,
            "Could not parse field as a string: incomplete utf-8 byte sequence from index 1"
        ),
        other => panic!("{:?}", other),
    }
    assert!(buf.is_empty());
}

#[test]
fn content_may_be_anything() {
    let m = Message::new(MsgTyp::PM, 255, bytes("ann"), bytes(""), Bytes::from(&[0xffu8, 0][..]));
    let mut buf = BytesMut::new();
    codec().encode(m.clone(), &mut buf);
    assert!(same(&read(&mut codec(), &mut buf), &m));
}

#[test]
fn wrong_checksums_are_refused() {
    let mut c = codec();
    let mut frame = sample_frame();
    let last = frame.len() - 1;
    frame[last] ^= 1;
    let mut buf = BytesMut::from(&frame[..]);
    buf.extend_from_slice(b"rest");
    match c.decode(&mut buf) {
        Some(Err(e)) => assert_eq!(e, "CRC check failed"),
        other => panic!("{:?}", other),
    }
    assert_eq!(&buf[..], b"rest");
}

#[test]
fn changed_contents_are_refused() {
    let mut frame = sample_frame();
    frame[29] = b'o';
    let mut buf = BytesMut::from(&frame[..]);
    match codec().decode(&mut buf) {
        Some(Err(e)) => assert_eq!(e, "CRC check failed"),
        other => panic!("{:?}", other),
    }
}

#[test]
fn builder_counts_and_wraps() {
    let mut b = MsgBuilder::new(bytes("ann"));
    assert_eq!(b.username_len(), 3);
    assert!(b.sent_at(1).is_none());
    for i in 1..=256usize {
        let m = b.build(MsgTyp::PM, bytes(""), bytes(""));
        assert_eq!(m.msgnum as usize, i % 256);
        assert_eq!(m.from, bytes("ann"));
    }
    assert_eq!(b.ping_map.len(), 256);
    assert_eq!(b.build(MsgTyp::PM, bytes(""), bytes("")).msgnum, 1);
}

#[test]
fn builder_notes_the_time() {
    let mut b = MsgBuilder::new(bytes("ann"));
    let then = SystemTime::UNIX_EPOCH + Duration::new(5, 0);
    let m = b.build_at(MsgTyp::PM, bytes(""), bytes(""), then);
    assert_eq!(m.msgnum, 1);
    assert_eq!(m.crc, 0xffd9_9eef);
    assert_eq!(b.sent_at(1), Some(&then));
    assert!(b.sent_at(2).is_none());
    let before = SystemTime::now();
    let _ = b.build(MsgTyp::PM, bytes(""), bytes(""));
    assert!(*b.sent_at(2).unwrap() >= before);
}

#[test]
fn checksums_are_compared() {
    let m = sample();
    assert!(same(&checked(m.clone(), 0xffe4_5a53).unwrap(), &m));
    assert_eq!(checked(m, 0xffe4_5a52).unwrap_err(), "CRC check failed");
}

#[test]
fn frames_are_raw_bytes_and_checksum() {
    let mut dst = BytesMut::from(&b"x"[..]);
    put_frame(&bytes("ab"), 0x0102_0304, &mut dst);
    assert_eq!(&dst[..], b"xab\x01\x02\x03\x04");
}

#[test]
fn field_faults_in_words() {
    assert_eq!(field_fault("bad"), "Could not parse field as a string: bad");
}

#[test]
fn bytes_differ_where_messages_do() {
    let base = || Message::new(MsgTyp::PM, 1, bytes("ab"), bytes("c"), bytes("d"));
    let mut same_but_crc = base();
    same_but_crc.crc = 0;
    assert_eq!(same_but_crc.raw(), base().raw());
    let others = vec![
        Message::new(MsgTyp::BC, 1, bytes("ab"), bytes("c"), bytes("d")),
        Message::new(MsgTyp::PM, 2, bytes("ab"), bytes("c"), bytes("d")),
        Message::new(MsgTyp::PM, 1, bytes("a"), bytes("bc"), bytes("d")),
        Message::new(MsgTyp::PM, 1, bytes("ab"), bytes(""), bytes("cd")),
        Message::new(MsgTyp::PM, 1, bytes("ab"), bytes("c"), bytes("e")),
    ];
    for mut m in others {
        assert_ne!(m.raw().0, base().raw().0);
    }
}

#[test]
fn any_changed_byte_of_the_content_is_told() {
    let m = sample();
    let frame = sample_frame();
    for i in frame.len() - 4 - m.content.len()..frame.len() - 4 {
        for flip in 1..=255u8 {
            let mut damaged = frame.clone();
            damaged[i] ^= flip;
            let mut buf = BytesMut::from(&damaged[..]);
            match codec().decode(&mut buf) {
                Some(Err(e)) => assert_eq!(e, "CRC check failed"),
                other => panic!("{:?}", other),
            }
        }
    }
}

#[test]
fn what_is_left_is_the_end_of_what_was_there() {
    let mut all = b"junk".to_vec();
    all.extend_from_slice(&sample_frame());
    all.extend_from_slice(b"\xaa\x55\x63rest");
    for n in 0..=all.len() {
        let mut c = codec();
        let mut buf = BytesMut::from(&all[..n]);
        let _ = c.decode(&mut buf);
        assert!(all[..n].ends_with(&buf));
        let _ = c.decode(&mut buf);
        assert!(all[..n].ends_with(&buf));
    }
}

#[test]
fn the_checksum_is_the_remainder() {
    let mut m = Message::new(MsgTyp::PM, 0, bytes(""), bytes(""), bytes("123456789"));
    let (raw, crc) = m.raw();
    let mut register: u32 = 0xffff_ffff;
    for b in raw.iter() {
        register ^= *b as u32;
        for _ in 0..8 {
            register = if register & 1 == 1 {
                (register >> 1) ^ 0xedb8_8320
            } else {
                register >> 1
            };
        }
    }
    assert_eq!(crc, !register);
}
