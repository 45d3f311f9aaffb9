use bytes::{Bytes, BytesMut};
use chatter::addr::{Addr, Host};
use chatter::assoc::AssocMap;
use chatter::commands::{
    command_named, into_bytes, list_peers, typ_named, unblocked_peers, unknown_command, volume_named, Command, Word,
};
use chatter::message::{Message, MsgBuilder, MsgTyp, NACKKind};
use chatter::peer::{PeerMap, PeerVolume, SockMap, UserMap};
use chatter::terminal::{
    command_failed, describe_time, put_shown, render, roundtrip_of, sender_volume, timed_since, Event, Outcome, Roundtrip, TerminalCodec, CARET,
    COMMAND_OK, HELP,
};
use std::time::{Duration, SystemTime};

fn addr(last: u8, port: u16) -> Addr {
    Addr {
        host: Host::V4(0x0a00_0000 + last as u32),
        port,
        text: format!("10.0.0.{}:{}", last, port),
    }
}

fn bytes(s: &str) -> Bytes {
    Bytes::from(s.as_bytes())
}

struct World {
    term: TerminalCodec,
    sock: SockMap<u8>,
    peers: PeerMap,
    users: UserMap,
    builder: MsgBuilder,
    buf: BytesMut,
}

fn world() -> World {
    let mut sock = SockMap { inner: AssocMap::new() };
    sock.inner.insert(addr(1, 1), 0);
    sock.inner.insert(addr(2, 2), 0);
    let mut users = UserMap { inner: AssocMap::new() };
    users.inner.insert(bytes("ann"), addr(1, 1));
    World {
        term: TerminalCodec::new(),
        sock,
        peers: PeerMap { inner: AssocMap::new() },
        users,
        builder: MsgBuilder::new(bytes("me")),
        buf: BytesMut::new(),
    }
}

fn next(w: &mut World) -> Event {
    assert!(w.term.can_decode(&w.buf, &w.sock, &w.peers, &w.builder));
    w.term.decode(&mut w.buf, &w.sock, &w.peers, &mut w.builder)
}

fn kind(e: &Event) -> &'static str {
    match e {
        Event::NeedInput => "need",
        Event::Caret => "caret",
        Event::Command { .. } => "command",
        Event::Transmit { .. } => "transmit",
    }
}

fn word(text: &str) -> Word {
    let known = vec![addr(1, 1), addr(2, 2), addr(3, 3)];
    Word {
        text: text.to_string(),
        addr: known.into_iter().find(|a| a.text == text),
    }
}

fn run(w: &mut World, line: &str) -> Result<Outcome, String> {
    let words: Vec<Word> = line.split_whitespace().map(word).collect();
    w.term.parse_command(line, &words, &w.sock, &mut w.peers, &w.users, &mut w.builder)
}

fn fails(w: &mut World, line: &str) -> String {
    match run(w, line) {
        Err(e) => e,
        Ok(_) => panic!("{} did not fail", line),
    }
}

fn sends(w: &mut World, line: &str) -> (Message, Vec<String>) {
    match run(w, line) {
        Ok(Outcome::Send { msg, recipients }) => {
            (msg, recipients.into_iter().map(|a| a.text).collect())
        }
        _ => panic!("{} did not send", line),
    }
}

fn shows(w: &mut World, line: &str) -> String {
    match run(w, line) {
        Ok(Outcome::Show(s)) => s,
        _ => panic!("{} did not show", line),
    }
}

fn does(w: &mut World, line: &str) {
    assert!(matches!(run(w, line), Ok(Outcome::Done)));
}

fn compose(w: &mut World, input: &str) -> (Message, Vec<String>, String) {
    w.buf.extend_from_slice(input.as_bytes());
    loop {
        match next(w) {
            Event::Transmit { msg, recipients, notice } => {
                return (msg, recipients.into_iter().map(|a| a.text).collect(), notice);
            }
            Event::Caret => {}
            other => panic!("{}", kind(&other)),
        }
    }
}

#[test]
fn three_returns_send_a_broadcast() {
    let mut w = world();
    w.buf.extend_from_slice(b"  hello there \n\n\nmore");
    assert_eq!(kind(&next(&mut w)), "caret");
    assert_eq!(kind(&next(&mut w)), "caret");
    match next(&mut w) {
        Event::Transmit { msg, recipients, notice } => {
            assert_eq!(msg.typ, MsgTyp::BC);
            assert_eq!(msg.msgnum, 1);
            assert_eq!(msg.from, bytes("me"));
            assert_eq!(msg.content, bytes("hello there"));
            let mut texts: Vec<String> = recipients.iter().map(|a| a.text.clone()).collect();
            assert_eq!(msg.to, bytes(&texts.join(",")));
            texts.sort();
            assert_eq!(texts, vec!["10.0.0.1:1", "10.0.0.2:2"]);
            assert_eq!(notice, "\rTransmitting broadcast\n> ");
        }
        other => panic!("{}", kind(&other)),
    }
    assert_eq!(&w.buf[..], b"more");
    assert_eq!(kind(&next(&mut w)), "need");
}

#[test]
fn paragraphs_go_together() {
    let mut w = world();
    let (msg, _, _) = compose(&mut w, "one\n\ntwo\nthree\n\n\n");
    assert_eq!(msg.content, bytes("one\n\ntwo\nthree"));
    let (msg, _, _) = compose(&mut w, "\n\n\n");
    assert_eq!(msg.content, bytes(""));
    assert_eq!(msg.msgnum, 2);
}

#[test]
fn a_newline_before_a_blank_line_counts() {
    let mut w = world();
    w.buf.extend_from_slice(b"one\n");
    assert_eq!(kind(&next(&mut w)), "caret");
    w.buf.extend_from_slice(b"\n\n\n");
    assert_eq!(kind(&next(&mut w)), "caret");
    assert_eq!(kind(&next(&mut w)), "transmit");
    assert_eq!(&w.buf[..], b"\n");
}

#[test]
fn all_white_space_is_trimmed() {
    let mut w = world();
    let (msg, _, _) = compose(&mut w, "\u{3000}\u{a0}x\u{200b} y\u{2028}\u{85}\n\n\n");
    assert_eq!(msg.content, bytes("x\u{200b} y"));
}

#[test]
fn lines_that_are_not_text_are_kept_as_they_are() {
    let mut w = world();
    w.buf.extend_from_slice(b" \xff \nx\n\n\n");
    assert_eq!(kind(&next(&mut w)), "caret");
    assert_eq!(kind(&next(&mut w)), "caret");
    match next(&mut w) {
        Event::Transmit { msg, .. } => assert_eq!(&msg.content[..], b" \xff \nx"),
        other => panic!("{}", kind(&other)),
    }
}

#[test]
fn the_search_goes_on_where_it_stopped() {
    let mut w = world();
    w.buf.extend_from_slice(b"hel");
    assert_eq!(kind(&next(&mut w)), "need");
    assert_eq!(&w.buf[..], b"hel");
    let shorter = BytesMut::from(&b"he"[..]);
    assert!(!w.term.can_decode(&shorter, &w.sock, &w.peers, &w.builder));
    let (msg, _, _) = compose(&mut w, "lo\n\n\n");
    assert_eq!(msg.content, bytes("hello"));
    assert!(w.buf.is_empty());
}

#[test]
fn input_may_arrive_byte_by_byte() {
    let typed = b"one \n\n two\n\xff\n /help\nthree\n\n\nmore";
    let mut whole = world();
    whole.buf.extend_from_slice(typed);
    let mut slow = world();
    let mut seen: Vec<&str> = Vec::new();
    for b in typed.iter() {
        slow.buf.extend_from_slice(&[*b]);
        loop {
            let e = next(&mut slow);
            if let Event::Transmit { msg, .. } = &e {
                assert_eq!(&msg.content[..], b"one\n\ntwo\n\xff\nthree");
            }
            if let Event::NeedInput = e {
                break;
            }
            seen.push(kind(&e));
        }
    }
    let mut expected: Vec<&str> = Vec::new();
    loop {
        let e = next(&mut whole);
        if let Event::NeedInput = e {
            break;
        }
        expected.push(kind(&e));
    }
    assert_eq!(seen, expected);
    assert_eq!(&slow.buf[..], b"more");
    assert_eq!(&whole.buf[..], b"more");
}

#[test]
fn a_command_may_arrive_in_pieces() {
    let mut w = world();
    w.buf.extend_from_slice(b" /ms");
    assert_eq!(kind(&next(&mut w)), "need");
    w.buf.extend_from_slice(b"g pm\n");
    match next(&mut w) {
        Event::Command { line, words } => {
            assert_eq!(line, "/msg pm");
            assert_eq!(words, vec!["/msg", "pm"]);
        }
        other => panic!("{}", kind(&other)),
    }
}

#[test]
fn broadcasts_leave_the_blocked_out() {
    for name in vec!["bc", "bbc"] {
        let mut w = world();
        does(&mut w, "/volume block ann 10.0.0.3:3");
        does(&mut w, &format!("/msg {}", name));
        let (msg, to, _) = compose(&mut w, "hi\n\n\n");
        assert_eq!(to, vec!["10.0.0.2:2"]);
        assert_eq!(msg.to, bytes(if name == "bc" { "10.0.0.2:2" } else { "" }));
        does(&mut w, "/volume quiet ann");
        let (_, mut to, _) = compose(&mut w, "hi\n\n\n");
        to.sort();
        assert_eq!(to, vec!["10.0.0.1:1", "10.0.0.2:2"]);
    }
}

#[test]
fn private_messages_reach_the_blocked() {
    let mut w = world();
    does(&mut w, "/volume block ann");
    does(&mut w, "/to ann");
    does(&mut w, "/msg pm");
    let (_, to, _) = compose(&mut w, "hi\n\n\n");
    assert_eq!(to, vec!["10.0.0.1:1"]);
}

#[test]
fn unblocked_peers_keep_their_order() {
    let mut w = world();
    does(&mut w, "/volume mute ann");
    let list = vec![addr(3, 3), addr(1, 1), addr(2, 2), addr(3, 3)];
    let open: Vec<String> = unblocked_peers(&w.peers, &list)
        .into_iter()
        .map(|a| a.text)
        .collect();
    assert_eq!(open, vec!["10.0.0.3:3", "10.0.0.2:2", "10.0.0.3:3"]);
}

#[test]
fn white_space_is_what_the_standard_library_says() {
    for c in (0..0x3100u32).filter_map(std::char::from_u32) {
        if c != '\n' {
            let mut w = world();
            let line = format!("a{}", c);
            let (msg, _, _) = compose(&mut w, &format!("{}\n\n\n", line));
            assert_eq!(msg.content, bytes(line.trim()));
        }
    }
}

#[test]
fn a_slash_makes_a_command_and_keeps_the_message() {
    let mut w = world();
    w.buf.extend_from_slice(b"text\n  /Msg\tpm \n\n\n");
    assert_eq!(kind(&next(&mut w)), "caret");
    match next(&mut w) {
        Event::Command { line, words } => {
            assert_eq!(line, "/Msg\tpm");
            assert_eq!(words, vec!["/Msg", "pm"]);
        }
        other => panic!("{}", kind(&other)),
    }
    assert_eq!(kind(&next(&mut w)), "caret");
    match next(&mut w) {
        Event::Transmit { msg, .. } => assert_eq!(msg.content, bytes("text")),
        other => panic!("{}", kind(&other)),
    }
}

#[test]
fn private_messages_go_to_whom_the_user_named() {
    let mut w = world();
    does(&mut w, "/to ann 10.0.0.3:3");
    does(&mut w, "/msg private");
    let (msg, to, notice) = compose(&mut w, "psst\n\n\n");
    assert_eq!(msg.typ, MsgTyp::PM);
    assert_eq!(to, vec!["10.0.0.1:1", "10.0.0.3:3"]);
    assert_eq!(msg.to, bytes("10.0.0.1:1,10.0.0.3:3"));
    assert_eq!(notice, "\rTransmitting sent\n> ");
}

#[test]
fn blind_broadcasts_name_nobody() {
    let mut w = world();
    does(&mut w, "/msg BBC");
    let (msg, mut to, _) = compose(&mut w, "psst\n\n\n");
    to.sort();
    assert_eq!(msg.typ, MsgTyp::BBC);
    assert_eq!(to, vec!["10.0.0.1:1", "10.0.0.2:2"]);
    assert_eq!(msg.to, bytes(""));
}

#[test]
fn names_of_commands_and_settings() {
    for (name, command) in vec![
        ("/connect", Command::Connect),
        ("/msg", Command::Msg),
        ("/to", Command::To),
        ("/volume", Command::Volume),
        ("/whos_here?", Command::WhosHere),
        ("/here?", Command::WhosHere),
        ("/whos_here", Command::WhosHere),
        ("/here", Command::WhosHere),
        ("/quit", Command::Quit),
        ("/exit", Command::Quit),
        ("/help", Command::Help),
        ("/Help", Command::Unknown),
        ("/", Command::Unknown),
    ] {
        assert_eq!(command_named(name), command);
    }
    for name in vec!["pm", "private", "private_message"] {
        assert_eq!(typ_named(name), Some(MsgTyp::PM));
    }
    for name in vec!["bc", "broadcast"] {
        assert_eq!(typ_named(name), Some(MsgTyp::BC));
    }
    for name in vec!["bbc", "blind_broadcast"] {
        assert_eq!(typ_named(name), Some(MsgTyp::BBC));
    }
    assert_eq!(typ_named("ack"), None);
    for (name, vol) in vec![
        ("debug", PeerVolume::Loud),
        ("loud", PeerVolume::Loud),
        ("normal", PeerVolume::Normal),
        ("default", PeerVolume::Normal),
        ("quiet", PeerVolume::Quiet),
        ("block", PeerVolume::Mute),
        ("mute", PeerVolume::Mute),
    ] {
        assert_eq!(volume_named(name), Some(vol));
    }
    assert_eq!(volume_named("silent"), None);
}

#[test]
fn connect_sends_to_each_address() {
    let mut w = world();
    let (msg, to) = sends(&mut w, "/CONNECT 10.0.0.3:3 ann");
    assert_eq!(msg.typ, MsgTyp::Connect);
    assert_eq!(msg.to, bytes("10.0.0.3:3,10.0.0.1:1"));
    assert!(msg.content.is_empty());
    assert_eq!(to, vec!["10.0.0.3:3", "10.0.0.1:1"]);
}

#[test]
fn a_name_comes_before_an_address() {
    let mut w = world();
    w.users.inner.insert(bytes("10.0.0.3:3"), addr(2, 2));
    let (_, to) = sends(&mut w, "/connect 10.0.0.3:3");
    assert_eq!(to, vec!["10.0.0.2:2"]);
}

#[test]
fn the_first_unknown_peer_is_told() {
    let mut w = world();
    assert_eq!(
        fails(&mut w, "/connect ann bob carl"),
        "Peer bob cannot be parsed as a username or address"
    );
    assert_eq!(
        fails(&mut w, "/to bob"),
        "Peer bob cannot be parsed as a username or address"
    );
    assert_eq!(
        fails(&mut w, "/volume mute ann bob"),
        "Peer bob cannot be parsed as a username or address"
    );
    assert!(w.peers.inner.keys().is_empty());
}

#[test]
fn missing_and_unknown_settings_are_told() {
    let mut w = world();
    assert_eq!(fails(&mut w, "/msg"), "Insufficient arguments");
    assert_eq!(fails(&mut w, "/volume"), "Insufficient arguments");
    assert_eq!(fails(&mut w, "/msg Loudly"), "Unknown message type Loudly");
    assert_eq!(fails(&mut w, "/volume Eleven ann"), "Unknown volume setting Eleven");
}

#[test]
fn unknown_commands_are_told() {
    let mut w = world();
    let e = fails(&mut w, "/dance now");
    assert!(e.starts_with("Unknown command SplitWhitespace"));
    assert_eq!(fails(&mut w, "/dance now"), e);
}

#[test]
fn volumes_are_set_and_the_rest_stays() {
    let mut w = world();
    w.peers.welcome(&addr(2, 2));
    does(&mut w, "/volume QUIET ann 10.0.0.3:3");
    assert_eq!(w.peers.inner.get(&addr(1, 1)).unwrap().vol, PeerVolume::Quiet);
    assert_eq!(w.peers.inner.get(&addr(3, 3)).unwrap().vol, PeerVolume::Quiet);
    assert_eq!(w.peers.inner.get(&addr(2, 2)).unwrap().vol, PeerVolume::Normal);
}

#[test]
fn quit_says_goodbye_to_all() {
    let mut w = world();
    let (msg, mut to) = sends(&mut w, "/exit");
    to.sort();
    assert_eq!(msg.typ, MsgTyp::Disconnect);
    assert!(msg.to.is_empty());
    assert!(msg.content.is_empty());
    assert_eq!(to, vec!["10.0.0.1:1", "10.0.0.2:2"]);
}

#[test]
fn help_is_shown() {
    let mut w = world();
    assert_eq!(shows(&mut w, "/help"), HELP);
    assert!(HELP.starts_with("\nUsage:\n"));
    assert!(HELP.contains("Default is broadcast\n\n  /to"));
}

#[test]
fn who_is_here() {
    let mut w = world();
    w.sock.inner.remove(&addr(2, 2));
    assert_eq!(
        shows(&mut w, "/whos_here?"),
        "Connected Peers:\n\tunknown: dangling connection@10.0.0.1:1\n\n"
    );
    w.peers.welcome(&addr(1, 1));
    assert_eq!(shows(&mut w, "/here"), "Connected Peers:\n\t@10.0.0.1:1\n\n");
}

#[test]
fn peers_are_listed_with_their_names() {
    let mut w = world();
    for (a, name) in vec![(addr(1, 1), &b"ann"[..]), (addr(2, 2), &b"\xff"[..])] {
        w.peers.inner.insert(
            a.clone(),
            chatter::peer::PeerConfig {
                addr: a,
                username: Bytes::from(name),
                vol: PeerVolume::Normal,
            },
        );
    }
    assert_eq!(
        list_peers(&w.peers, &vec![addr(1, 1), addr(2, 2)]),
        "Connected Peers:\n\tann@10.0.0.1:1\n\tunknown: not unicode@10.0.0.2:2\n\n"
    );
    assert_eq!(list_peers(&w.peers, &vec![]), "Connected Peers:\n\t\n\n");
}

#[test]
fn addresses_are_joined_by_commas() {
    assert_eq!(into_bytes(&vec![]), bytes(""));
    assert_eq!(into_bytes(&vec![addr(1, 1)]), bytes("10.0.0.1:1"));
    assert_eq!(
        into_bytes(&vec![addr(1, 1), addr(2, 2), addr(3, 3)]),
        bytes("10.0.0.1:1,10.0.0.2:2,10.0.0.3:3")
    );
}

#[test]
fn recipients_stand_between_commas() {
    let joined = into_bytes(&vec![addr(1, 1), addr(2, 2), addr(3, 3)]);
    let text = std::str::from_utf8(&joined).unwrap();
    let told: Vec<&str> = text.split(',').collect();
    assert_eq!(told, vec!["10.0.0.1:1", "10.0.0.2:2", "10.0.0.3:3"]);
}

#[test]
fn prompts() {
    assert_eq!(CARET, "+ ");
    assert_eq!(COMMAND_OK, "\rok\n> ");
    assert_eq!(command_failed("no"), "\rCommand failed: no\n> ");
}

fn item(typ: MsgTyp) -> Message {
    Message::new(typ, 3, bytes("ann"), bytes(""), Bytes::from(&[7u8][..]))
}

#[test]
fn volumes_decide_what_is_shown() {
    let all = vec![
        MsgTyp::PM,
        MsgTyp::BC,
        MsgTyp::BBC,
        MsgTyp::Connect,
        MsgTyp::Disconnect,
        MsgTyp::ACK,
        MsgTyp::NACK(NACKKind::Blocked),
    ];
    for (i, typ) in all.iter().enumerate() {
        let shown = |vol| !render(vol, &item(*typ), &Roundtrip::Unknown).is_empty();
        assert!(shown(PeerVolume::Loud));
        assert_eq!(shown(PeerVolume::Normal), i < 5);
        assert_eq!(shown(PeerVolume::Quiet), i < 1);
        assert!(!shown(PeerVolume::Mute));
    }
}

#[test]
fn what_is_shown_at_each_volume() {
    let m = item(MsgTyp::PM);
    let none = Roundtrip::Unknown;
    assert_eq!(render(PeerVolume::Normal, &m, &none), b"[ann sent]: \x07\n".to_vec());
    assert_eq!(render(PeerVolume::Quiet, &m, &none), b"[ann sent]: \x07\n".to_vec());
    assert_eq!(render(PeerVolume::Loud, &m, &none), b"\r[ann sent]: \x07\n".to_vec());
}

#[test]
fn answers_are_timed() {
    let m = item(MsgTyp::ACK);
    assert_eq!(
        render(PeerVolume::Loud, &m, &Roundtrip::Unknown),
        b"\r[ann confirmed message]\nUnknown roundtrip msgtime for msgnum 7, there is no ping_map \
          entry for that message.\n"
            .to_vec()
    );
    assert_eq!(
        render(PeerVolume::Loud, &m, &Roundtrip::Took { secs: 1, nanos: 500_000_000 }),
        b"\r[ann confirmed message]\nRoundtrip time for msgnum 7 was 1.5s.\n".to_vec()
    );
    assert_eq!(
        render(PeerVolume::Loud, &m, &Roundtrip::Failed("late".to_string())),
        b"\r[ann confirmed message]\nError computing roundtrip time for msgnum 7: Er: late.\n"
            .to_vec()
    );
}

#[test]
fn answers_without_a_number_are_shown_untimed() {
    let mut w = world();
    does(&mut w, "/volume loud ann");
    let ack = Message::new(MsgTyp::ACK, 0, bytes("ann"), bytes(""), bytes(""));
    let mut dst = BytesMut::new();
    assert!(encode(&w, ack.clone(), &mut dst));
    assert_eq!(&dst[..], b"\r[ann confirmed message]\n");
    assert!(timed_since(PeerVolume::Loud, &ack, &w.builder).is_none());
}

#[test]
fn answers_are_timed_since_what_they_answer() {
    let mut w = world();
    let then = SystemTime::UNIX_EPOCH + Duration::new(5, 0);
    w.builder.ping_map.insert(7, then);
    w.builder.ping_map.insert(3, SystemTime::UNIX_EPOCH);
    assert_eq!(timed_since(PeerVolume::Loud, &item(MsgTyp::ACK), &w.builder), Some(&then));
    assert_eq!(timed_since(PeerVolume::Normal, &item(MsgTyp::ACK), &w.builder), None);
    assert_eq!(timed_since(PeerVolume::Loud, &item(MsgTyp::PM), &w.builder), None);
    w.builder.ping_map.remove(&7);
    assert_eq!(timed_since(PeerVolume::Loud, &item(MsgTyp::ACK), &w.builder), None);
}

#[test]
fn a_failed_command_changes_nothing() {
    let mut w = world();
    does(&mut w, "/to ann");
    let _ = fails(&mut w, "/to 10.0.0.2:2 nobody");
    let _ = fails(&mut w, "/volume mute ann nobody");
    let _ = fails(&mut w, "/msg loudly");
    let _ = fails(&mut w, "/connect ann nobody");
    assert!(w.peers.inner.keys().is_empty());
    assert!(w.builder.ping_map.is_empty());
    let (msg, _, _) = compose(&mut w, "hi\n\n\n");
    assert_eq!((msg.typ, msg.msgnum), (MsgTyp::BC, 1));
    does(&mut w, "/msg pm");
    let (_, to, _) = compose(&mut w, "hi\n\n\n");
    assert_eq!(to, vec!["10.0.0.1:1"]);
}

#[test]
fn what_the_clock_says_is_what_is_shown() {
    let ack = item(MsgTyp::ACK);
    let shown = |reading| {
        let trip = roundtrip_of(reading);
        let mut dst = BytesMut::from(&b"x"[..]);
        assert!(put_shown(PeerVolume::Loud, &ack, &trip, &mut dst));
        String::from_utf8(dst.to_vec()).unwrap()
    };
    assert_eq!(
        shown(Ok((2, 250_000_000))),
        "x\r[ann confirmed message]\nRoundtrip time for msgnum 7 was 2.25s.\n"
    );
    assert_eq!(
        shown(Err("late".to_string())),
        "x\r[ann confirmed message]\nError computing roundtrip time for msgnum 7: Er: late.\n"
    );
}

#[test]
fn ipv4_recipients_read_back() {
    let list = vec![Addr::v4(1, 2), Addr::v4(0xffff_ff00, 3), Addr::v4(1, 2)];
    let joined = into_bytes(&list);
    assert_eq!(joined, bytes("0.0.0.1:2,255.255.255.0:3,0.0.0.1:2"));
}

#[test]
fn senders_are_as_loud_as_the_user_set_them() {
    let mut w = world();
    assert_eq!(sender_volume(&w.users, &w.peers, &bytes("ann")), PeerVolume::Normal);
    does(&mut w, "/volume loud ann");
    assert_eq!(sender_volume(&w.users, &w.peers, &bytes("ann")), PeerVolume::Loud);
    assert_eq!(sender_volume(&w.users, &w.peers, &bytes("bob")), PeerVolume::Normal);
}

fn encode(w: &World, m: Message, dst: &mut BytesMut) -> bool {
    w.term.encode(m, dst, &w.peers, &w.users, &w.builder)
}

#[test]
fn encode_appends_what_is_shown() {
    let mut w = world();
    let mut dst = BytesMut::from(&b"x"[..]);
    assert!(encode(&w, item(MsgTyp::BC), &mut dst));
    assert_eq!(&dst[..], b"x[ann broadcast]: \x07\n");
    does(&mut w, "/volume mute ann");
    assert!(encode(&w, item(MsgTyp::BC), &mut dst));
    assert_eq!(&dst[..], b"x[ann broadcast]: \x07\n");
}

#[test]
fn encode_times_the_answer() {
    let mut w = world();
    does(&mut w, "/volume loud ann");
    let mut dst = BytesMut::new();
    assert!(encode(&w, item(MsgTyp::ACK), &mut dst));
    let text = String::from_utf8(dst.to_vec()).unwrap();
    assert!(text.contains("Unknown roundtrip msgtime for msgnum 7,"));

    let hour = Duration::new(3600, 0);
    w.builder.ping_map.insert(7, SystemTime::now() - hour);
    let mut dst = BytesMut::new();
    assert!(encode(&w, item(MsgTyp::ACK), &mut dst));
    let text = String::from_utf8(dst.to_vec()).unwrap();
    assert!(text.contains("Roundtrip time for msgnum 7 was 36"));

    w.builder.ping_map.insert(7, SystemTime::now() + hour);
    let mut dst = BytesMut::new();
    assert!(encode(&w, item(MsgTyp::NACK(NACKKind::Blocked)), &mut dst));
    let text = String::from_utf8(dst.to_vec()).unwrap();
    assert!(text.contains("Error computing roundtrip time for msgnum 7: Er: SystemTimeError("));
}

#[test]
fn faults_and_times_in_words() {
    assert_eq!(unknown_command("x"), "Unknown command x");
    assert_eq!(describe_time(7, "2s"), "Roundtrip time for msgnum 7 was 2s.\n");
}
