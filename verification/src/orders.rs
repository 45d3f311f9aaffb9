//! What holds of the commands that the user gives, and of where messages go.

use crate::addr::AddrView;
use crate::commands;
use crate::commands::{Command, Plan, WordView};
use crate::message::{MessageView, MsgBuilder, MsgTyp};
use crate::peer;
use crate::peer::{ConfigView, PeerVolume};
use crate::terminal;
use crate::terminal::{Event, Outcome, Reading, TermView, HELP};
use crate::text;
use crate::wire;
use std::time::SystemTime;
use vstd::prelude::*;
use vstd::utf8::{decode_utf8, encode_utf8, valid_utf8};

verus! {

/// Commands go by these names, and by no others.
pub proof fn names_of_commands(name: Seq<char>)
    ensures
        commands::command_of(name) is Connect <==> name == "/connect"@,
        commands::command_of(name) is Msg <==> name == "/msg"@,
        commands::command_of(name) is To <==> name == "/to"@,
        commands::command_of(name) is Volume <==> name == "/volume"@,
        commands::command_of(name) is WhosHere <==> name == "/whos_here?"@ || name == "/here?"@
            || name == "/whos_here"@ || name == "/here"@,
        commands::command_of(name) is Quit <==> name == "/quit"@ || name == "/exit"@,
        commands::command_of(name) is Help <==> name == "/help"@,
{
    names_differ();
}

/// No two of the names are the same.
proof fn names_differ()
    ensures
        "/connect"@ != "/msg"@,
        "/connect"@ != "/to"@,
        "/connect"@ != "/volume"@,
        "/connect"@.len() == 8,
        "/connect"@[1] == 'c',
        "/msg"@.len() == 4,
        "/msg"@[1] == 'm',
        "/to"@.len() == 3,
        "/to"@[1] == 't',
        "/volume"@.len() == 7,
        "/volume"@[1] == 'v',
        "/whos_here?"@.len() == 11,
        "/whos_here?"@[1] == 'w',
        "/here?"@.len() == 6,
        "/here?"@[1] == 'h',
        "/here?"@[3] == 'r',
        "/whos_here"@.len() == 10,
        "/whos_here"@[1] == 'w',
        "/here"@.len() == 5,
        "/here"@[1] == 'h',
        "/here"@[3] == 'r',
        "/quit"@.len() == 5,
        "/quit"@[1] == 'q',
        "/exit"@.len() == 5,
        "/exit"@[1] == 'e',
        "/help"@.len() == 5,
        "/help"@[1] == 'h',
        "/help"@[3] == 'l',
{
    reveal_strlit("/connect");
    reveal_strlit("/msg");
    reveal_strlit("/to");
    reveal_strlit("/volume");
    reveal_strlit("/whos_here?");
    reveal_strlit("/here?");
    reveal_strlit("/whos_here");
    reveal_strlit("/here");
    reveal_strlit("/quit");
    reveal_strlit("/exit");
    reveal_strlit("/help");
    assert("/connect"@.len() == 8 && "/msg"@.len() == 4);
    assert("/to"@.len() == 3 && "/volume"@.len() == 7);
}

/// Message types go by these names, and by no others.
pub proof fn names_of_types(name: Seq<char>)
    ensures
        commands::typ_of(name) == Some(MsgTyp::PM) <==> name == "pm"@ || name == "private"@ || name
            == "private_message"@,
        commands::typ_of(name) == Some(MsgTyp::BC) <==> name == "bc"@ || name == "broadcast"@,
        commands::typ_of(name) == Some(MsgTyp::BBC) <==> name == "bbc"@ || name
            == "blind_broadcast"@,
        commands::typ_of(name) matches Some(typ) ==> typ == MsgTyp::PM || typ == MsgTyp::BC || typ
            == MsgTyp::BBC,
{
    reveal_strlit("pm");
    reveal_strlit("private");
    reveal_strlit("private_message");
    reveal_strlit("bc");
    reveal_strlit("broadcast");
    reveal_strlit("bbc");
    reveal_strlit("blind_broadcast");
    assert("pm"@[0] == 'p' && "private"@[0] == 'p' && "private_message"@[0] == 'p');
    assert("bc"@[0] == 'b' && "broadcast"@[0] == 'b');
    assert("bbc"@[0] == 'b' && "blind_broadcast"@[0] == 'b');
    assert("bc"@.len() == 2 && "broadcast"@.len() == 9);
    assert("bbc"@.len() == 3 && "blind_broadcast"@.len() == 15);
}

/// Volumes go by these names, and by no others.
pub proof fn names_of_volumes(name: Seq<char>)
    ensures
        commands::volume_of(name) == Some(PeerVolume::Loud) <==> name == "debug"@ || name
            == "loud"@,
        commands::volume_of(name) == Some(PeerVolume::Normal) <==> name == "normal"@ || name
            == "default"@,
        commands::volume_of(name) == Some(PeerVolume::Quiet) <==> name == "quiet"@,
        commands::volume_of(name) == Some(PeerVolume::Mute) <==> name == "block"@ || name
            == "mute"@,
{
    reveal_strlit("debug");
    reveal_strlit("loud");
    reveal_strlit("normal");
    reveal_strlit("default");
    reveal_strlit("quiet");
    reveal_strlit("block");
    reveal_strlit("mute");
    assert("debug"@[0] == 'd' && "debug"@.len() == 5 && "loud"@[0] == 'l');
    assert("normal"@[0] == 'n' && "default"@[0] == 'd' && "default"@.len() == 7);
    assert("quiet"@[0] == 'q' && "block"@[0] == 'b' && "mute"@[0] == 'm');
}

/// Each word stands for whoever goes by it, or else for the address that it can be read as. If
/// every word stands for an address, all of them come out, in order. If one does not, the first
/// such is told.
pub proof fn words_stand_for_peers(users: Map<Seq<u8>, AddrView>, words: Seq<WordView>)
    ensures
        match commands::peers_named(users, words) {
            Ok(addrs) => {
                &&& addrs.len() == words.len()
                &&& forall|i: int|
                    0 <= i < words.len() ==> {
                        let name = encode_utf8((#[trigger] words[i]).text);
                        if users.dom().contains(name) {
                            addrs[i] == users[name]
                        } else {
                            words[i].addr == Some(addrs[i])
                        }
                    }
            },
            Err(e) => exists|k: int|
                {
                    &&& 0 <= k < words.len()
                    &&& !users.dom().contains(encode_utf8((#[trigger] words[k]).text))
                    &&& words[k].addr is None
                    &&& e == "Peer "@ + words[k].text
                        + " cannot be parsed as a username or address"@
                    &&& forall|i: int|
                        0 <= i < k ==> users.dom().contains(
                            encode_utf8((#[trigger] words[i]).text),
                        ) || words[i].addr is Some
                },
        },
{
    commands::each_word_counts(users, words);
    match commands::peers_named(users, words) {
        Ok(addrs) => {
            assert forall|i: int| 0 <= i < words.len() implies {
                let name = encode_utf8((#[trigger] words[i]).text);
                if users.dom().contains(name) {
                    addrs[i] == users[name]
                } else {
                    words[i].addr == Some(addrs[i])
                }
            } by {
                assert(commands::peer_named(users, words[i]) == Some(addrs[i]));
            }
        },
        Err(e) => {
            let k = choose|k: int|
                {
                    &&& 0 <= k < words.len()
                    &&& commands::peer_named(users, #[trigger] words[k]) is None
                    &&& e == commands::no_peer(words[k])
                    &&& forall|i: int|
                        0 <= i < k ==> commands::peer_named(users, #[trigger] words[i]) is Some
                };
            assert(commands::peer_named(users, words[k]) is None);
            assert forall|i: int| 0 <= i < k implies users.dom().contains(
                encode_utf8((#[trigger] words[i]).text),
            ) || words[i].addr is Some by {
                assert(commands::peer_named(users, words[i]) is Some);
            }
        },
    }
}

/// Connecting sends a connection message without content to everyone who is named, and names them
/// in it. It fails exactly if a word stands for nobody.
pub proof fn connecting(
    line: Seq<char>,
    words: Seq<WordView>,
    users: Map<Seq<u8>, AddrView>,
    peers: Map<AddrView, ConfigView>,
    connected: Seq<AddrView>,
)
    ensures
        commands::plan(Command::Connect, line, words, users, peers, connected) == (
        match commands::peers_named(users, words.skip(1)) {
            Ok(addrs) => Plan::Send(
                MsgTyp::Connect,
                encode_utf8(text::joined(Seq::new(addrs.len(), |i: int| addrs[i].text), ","@)),
                addrs,
            ),
            Err(e) => Plan::Fail(e),
        }),
{
    match commands::peers_named(users, words.skip(1)) {
        Ok(addrs) => {
            assert(commands::addr_texts(addrs) =~= Seq::new(addrs.len(), |i: int| addrs[i].text));
        },
        Err(_) => {},
    }
}

/// Naming whom private messages go to settles just that. It fails exactly if a word stands for
/// nobody.
pub proof fn naming_recipients(
    line: Seq<char>,
    words: Seq<WordView>,
    users: Map<Seq<u8>, AddrView>,
    peers: Map<AddrView, ConfigView>,
    connected: Seq<AddrView>,
)
    ensures
        commands::plan(Command::To, line, words, users, peers, connected) == (
        match commands::peers_named(users, words.skip(1)) {
            Ok(addrs) => Plan::UseTo(addrs),
            Err(e) => Plan::Fail(e),
        }),
{
}

/// Choosing a message type: the second word names it, in whatever case. Without a second word, and
/// where it names no type, the command fails.
pub proof fn choosing_a_type(
    line: Seq<char>,
    words: Seq<WordView>,
    users: Map<Seq<u8>, AddrView>,
    peers: Map<AddrView, ConfigView>,
    connected: Seq<AddrView>,
)
    ensures
        ({
            let plan = commands::plan(Command::Msg, line, words, users, peers, connected);
            let name = text::lowercase(text::trimmed(words[1].text));
            if words.len() < 2 {
                plan == Plan::Fail("Insufficient arguments"@)
            } else if name == "pm"@ || name == "private"@ || name == "private_message"@ {
                plan == Plan::UseTyp(MsgTyp::PM)
            } else if name == "bc"@ || name == "broadcast"@ {
                plan == Plan::UseTyp(MsgTyp::BC)
            } else if name == "bbc"@ || name == "blind_broadcast"@ {
                plan == Plan::UseTyp(MsgTyp::BBC)
            } else {
                plan == Plan::Fail("Unknown message type "@ + words[1].text)
            }
        }),
{
}

/// Setting a volume: the second word names it, in whatever case, and the others name the peers.
/// Without a second word, where it names no volume, and where another word stands for nobody, the
/// command fails.
pub proof fn setting_a_volume(
    line: Seq<char>,
    words: Seq<WordView>,
    users: Map<Seq<u8>, AddrView>,
    peers: Map<AddrView, ConfigView>,
    connected: Seq<AddrView>,
)
    ensures
        ({
            let plan = commands::plan(Command::Volume, line, words, users, peers, connected);
            let name = text::lowercase(text::trimmed(words[1].text));
            let known = name == "debug"@ || name == "loud"@ || name == "normal"@ || name
                == "default"@ || name == "quiet"@ || name == "block"@ || name == "mute"@;
            let vol = if name == "debug"@ || name == "loud"@ {
                PeerVolume::Loud
            } else if name == "normal"@ || name == "default"@ {
                PeerVolume::Normal
            } else if name == "quiet"@ {
                PeerVolume::Quiet
            } else {
                PeerVolume::Mute
            };
            if words.len() < 2 {
                plan == Plan::Fail("Insufficient arguments"@)
            } else if !known {
                plan == Plan::Fail("Unknown volume setting "@ + words[1].text)
            } else {
                plan == match commands::peers_named(users, words.skip(2)) {
                    Ok(addrs) => Plan::UseVolume(vol, addrs),
                    Err(e) => Plan::Fail(e),
                }
            }
        }),
{
}

/// Quitting says goodbye to everyone who is connected, whatever is known or settled about them.
pub proof fn quitting(
    line: Seq<char>,
    words: Seq<WordView>,
    users: Map<Seq<u8>, AddrView>,
    peers: Map<AddrView, ConfigView>,
    connected: Seq<AddrView>,
)
    ensures
        commands::plan(Command::Quit, line, words, users, peers, connected) == Plan::Send(
            MsgTyp::Disconnect,
            Seq::empty(),
            connected,
        ),
{
}

/// Asking for help shows it, and an unknown command fails with what follows its name.
pub proof fn helping(
    line: Seq<char>,
    words: Seq<WordView>,
    users: Map<Seq<u8>, AddrView>,
    peers: Map<AddrView, ConfigView>,
    connected: Seq<AddrView>,
)
    ensures
        commands::plan(Command::Help, line, words, users, peers, connected) == Plan::Show(HELP@),
        commands::plan(Command::Unknown, line, words, users, peers, connected) == Plan::Fail(
            "Unknown command "@ + text::remaining_words(line),
        ),
{
}

/// Everyone who is connected is listed, and nobody else: one entry for each address, in order, with
/// the name that is known for it.
pub proof fn everyone_connected_is_listed(
    line: Seq<char>,
    words: Seq<WordView>,
    users: Map<Seq<u8>, AddrView>,
    peers: Map<AddrView, ConfigView>,
    connected: Seq<AddrView>,
) -> (entries: Seq<Seq<char>>)
    ensures
        commands::plan(Command::WhosHere, line, words, users, peers, connected) == Plan::Show(
            "Connected Peers:\n\t"@ + text::joined(entries, "\n\t"@) + "\n\n"@,
        ),
        entries.len() == connected.len(),
        forall|i: int|
            0 <= i < connected.len() ==> #[trigger] entries[i] == (if !peers.dom().contains(
                connected[i],
            ) {
                "unknown: dangling connection"@
            } else if valid_utf8(peers[connected[i]].username) {
                decode_utf8(peers[connected[i]].username)
            } else {
                "unknown: not unicode"@
            }) + "@"@ + connected[i].text,
{
    commands::all_listed(peers, connected)
}

/// Who is listed, and how, does not depend on the volumes that are set, but only on who is
/// connected and which names are known.
pub proof fn volumes_do_not_hide(
    line: Seq<char>,
    words: Seq<WordView>,
    users: Map<Seq<u8>, AddrView>,
    peers: Map<AddrView, ConfigView>,
    other_peers: Map<AddrView, ConfigView>,
    connected: Seq<AddrView>,
)
    requires
        forall|i: int|
            0 <= i < connected.len() ==> {
                let a = #[trigger] connected[i];
                &&& peers.dom().contains(a) == other_peers.dom().contains(a)
                &&& peers.dom().contains(a) ==> peers[a].username == other_peers[a].username
            },
    ensures
        commands::plan(Command::WhosHere, line, words, users, peers, connected) == commands::plan(
            Command::WhosHere,
            line,
            words,
            users,
            other_peers,
            connected,
        ),
{
    let (a, b) = (
        commands::all_listed(peers, connected),
        commands::all_listed(other_peers, connected),
    );
    assert forall|i: int| 0 <= i < connected.len() implies a[i] == b[i] by {
        let addr = connected[i];
        assert(peers.dom().contains(addr) == other_peers.dom().contains(addr));
    }
    assert(a =~= b);
}

/// What carrying a command out does. Only a choice of type changes the type, only a naming of
/// recipients changes those, only a setting of volumes changes what is known of the peers, and only
/// a message that is sent changes the builder. No command touches the message that is being
/// composed or how far the input has been searched.
pub proof fn commands_do_what_they_say(
    plan: Plan,
    old_term: TermView,
    term: TermView,
    old_peers: Map<AddrView, ConfigView>,
    peers: Map<AddrView, ConfigView>,
    old_builder: MsgBuilder,
    builder: MsgBuilder,
    r: Result<Outcome, String>,
    addr: AddrView,
)
    requires
        terminal::carried_out(plan, old_term, term, old_peers, peers, old_builder, builder, r),
    ensures
        term.msg == old_term.msg,
        term.idx == old_term.idx,
        r is Err <==> plan is Fail,
        plan matches Plan::Fail(e) ==> (r matches Err(f) && f@ == e),
        term.typ == (if plan is UseTyp {
            plan->UseTyp_0
        } else {
            old_term.typ
        }),
        term.to == (if plan is UseTo {
            plan->UseTo_0
        } else {
            old_term.to
        }),
        !(plan is UseVolume) ==> peers == old_peers,
        plan matches Plan::UseVolume(vol, addrs) ==> {
            &&& addrs.contains(addr) ==> peers.dom().contains(addr) && peers[addr].vol == vol
            &&& peers.dom().contains(addr) <==> old_peers.dom().contains(addr) || addrs.contains(
                addr,
            )
            &&& old_peers.dom().contains(addr) ==> peers[addr].username
                == old_peers[addr].username && peers[addr].addr == old_peers[addr].addr
            &&& old_peers.dom().contains(addr) && !addrs.contains(addr) ==> peers[addr].vol
                == old_peers[addr].vol
        },
        !(plan is Send) ==> builder == old_builder,
        plan matches Plan::Send(typ, to, addrs) ==> (r matches Ok(Outcome::Send { msg, recipients })
            && {
            &&& msg@.typ == typ
            &&& msg@.to == to
            &&& msg@.content.len() == 0
            &&& msg@.from == old_builder.username()
            &&& msg@.msgnum == (old_builder.msgnum() + 1) % 256
            &&& builder.msgnum() == (old_builder.msgnum() + 1) % 256
            &&& commands::addr_views(recipients@) == addrs
        }),
        plan matches Plan::Show(s) ==> (r matches Ok(Outcome::Show(t)) && t@ == s),
        plan is UseTyp || plan is UseTo || plan is UseVolume ==> r matches Ok(Outcome::Done),
{
    match plan {
        Plan::UseVolume(vol, addrs) => {
            commands::volumes_are_set(old_peers, addrs, vol, addr);
        },
        _ => {},
    }
}

/// A private message goes to whom the user has named, in order, and names them. Who is connected
/// does not matter. Where the user has named nobody it goes to nobody.
pub proof fn private_goes_to_the_named(
    term: TermView,
    audience: Seq<AddrView>,
    other_audience: Seq<AddrView>,
)
    requires
        term.typ == MsgTyp::PM,
    ensures
        term.recipients(audience) == term.to,
        term.recipients(audience) == term.recipients(other_audience),
        term.published(audience) == term.published(other_audience),
        term.published(audience) == encode_utf8(
            text::joined(Seq::new(term.to.len(), |i: int| term.to[i].text), ","@),
        ),
        term.to.len() == 0 ==> term.recipients(audience).len() == 0 && term.published(
            audience,
        ).len() == 0,
{
    assert(commands::addr_texts(term.to) =~= Seq::new(term.to.len(), |i: int| term.to[i].text));
}

/// A broadcast goes to everyone who is connected and not muted, and to nobody else. An open one
/// names them, a blind one names nobody. Whom the user has named for private messages does not
/// matter.
pub proof fn broadcast_goes_to_the_connected(
    term: TermView,
    peers: Map<AddrView, ConfigView>,
    connected: Seq<AddrView>,
    addr: AddrView,
)
    requires
        term.typ == MsgTyp::BC || term.typ == MsgTyp::BBC,
    ensures
        ({
            let audience = peer::unblocked(peers, connected);
            let list = term.recipients(audience);
            &&& list.contains(addr) <==> connected.contains(addr) && !(peers.dom().contains(addr)
                && peers[addr].vol == PeerVolume::Mute)
            &&& connected.no_duplicates() ==> list.no_duplicates()
            &&& term.typ == MsgTyp::BC ==> term.published(audience) == encode_utf8(
                text::joined(Seq::new(list.len(), |i: int| list[i].text), ","@),
            )
            &&& term.typ == MsgTyp::BBC ==> term.published(audience).len() == 0
        }),
{
    peer::blocked_are_left_out(peers, connected);
    let list = term.recipients(peer::unblocked(peers, connected));
    assert(commands::addr_texts(list) =~= Seq::new(list.len(), |i: int| list[i].text));
}

/// Whatever the user types that is no command, the message type and whom private messages go to
/// stay as they were settled.
pub proof fn typing_keeps_the_settings(term: TermView, b: Seq<u8>)
    ensures
        term.read(b).1.typ == term.typ,
        term.read(b).1.to == term.to,
    decreases b.len(),
{
    if exists|i: int| terminal::first_newline(b, term.idx as int, i) {
        let end = choose|i: int| terminal::first_newline(b, term.idx as int, i);
        let (line, rest) = (b.take(end + 1), b.skip(end + 1));
        if !valid_utf8(line) {
            typing_keeps_the_settings(TermView { idx: 0, msg: term.msg + line, ..term }, rest);
        }
    }
}

/// Once recipients have been named, a private message that is ended goes to exactly those, however
/// much is typed in between.
pub proof fn named_last_are_written_to(
    line: Seq<char>,
    words: Seq<WordView>,
    users: Map<Seq<u8>, AddrView>,
    peers: Map<AddrView, ConfigView>,
    connected: Seq<AddrView>,
    old_term: TermView,
    term: TermView,
    old_builder: MsgBuilder,
    builder: MsgBuilder,
    r: Result<Outcome, String>,
    typed: Seq<u8>,
    audience: Seq<AddrView>,
)
    requires
        terminal::carried_out(
            commands::plan(Command::To, line, words, users, peers, connected),
            old_term,
            term,
            peers,
            peers,
            old_builder,
            builder,
            r,
        ),
        r is Ok,
        term.typ == MsgTyp::PM,
    ensures
        commands::peers_named(users, words.skip(1)) == Ok::<Seq<AddrView>, Seq<char>>(
            term.read(typed).1.recipients(audience),
        ),
{
    typing_keeps_the_settings(term, typed);
}

/// What comes of what was read. A message that is ended is built with the type that was chosen and
/// goes out; a command line is handed over with its words; and nothing is built otherwise.
pub proof fn what_was_read_is_acted_on(
    reading: Reading,
    term: TermView,
    audience: Seq<AddrView>,
    old_builder: MsgBuilder,
    builder: MsgBuilder,
    r: Event,
)
    requires
        terminal::acted_on(reading, term, audience, old_builder, builder, r),
    ensures
        reading matches Reading::Transmit(content) ==> (r matches Event::Transmit {
            msg,
            recipients,
            notice,
        } && {
            let to = if term.typ == MsgTyp::BC || term.typ == MsgTyp::BBC {
                audience
            } else {
                term.to
            };
            &&& msg@.typ == term.typ
            &&& msg@.content == content
            &&& msg@.from == old_builder.username()
            &&& msg@.msgnum == (old_builder.msgnum() + 1) % 256
            &&& builder.msgnum() == (old_builder.msgnum() + 1) % 256
            &&& commands::addr_views(recipients@) == to
            &&& msg@.to == (if term.typ == MsgTyp::BBC {
                Seq::empty()
            } else {
                encode_utf8(text::joined(Seq::new(to.len(), |i: int| to[i].text), ","@))
            })
            &&& notice@ == "\rTransmitting "@ + term.typ.words() + "\n> "@
        }),
        reading matches Reading::Command(s) ==> (r matches Event::Command { line, words } && line@
            == s && words@.len() == text::words(s).len() && forall|i: int|
            0 <= i < words@.len() ==> (#[trigger] words@[i])@ == text::words(s)[i]),
        reading is NeedInput ==> r is NeedInput,
        reading is Caret ==> r is Caret,
        !(reading is Transmit) ==> builder == old_builder,
{
    match reading {
        Reading::Transmit(content) => {
            let to = term.recipients(audience);
            assert(commands::addr_texts(to) =~= Seq::new(to.len(), |i: int| to[i].text));
        },
        Reading::Command(s) => {
            if let Event::Command { line, words } = r {
                assert(text::texts(words@).len() == words@.len());
                assert forall|i: int| 0 <= i < words@.len() implies (#[trigger] words@[i])@
                    == text::words(s)[i] by {
                    assert(text::texts(words@)[i] == words@[i]@);
                }
            }
        },
        _ => {},
    }
}

/// A message that was built carries the checksum of its bytes, and the time at which it was built
/// is noted under its number. Nothing else is noted, and nothing is forgotten but what stood under
/// that number.
pub proof fn building_notes_the_time(
    before: MsgBuilder,
    after: MsgBuilder,
    typ: MsgTyp,
    to: Seq<u8>,
    content: Seq<u8>,
    now: SystemTime,
    m: MessageView,
    number: u8,
)
    requires
        before.builds(after, typ, to, content, now, m),
    ensures
        after.pings().dom().contains(m.msgnum),
        after.pings()[m.msgnum] == now,
        number != m.msgnum ==> after.pings().dom().contains(number)
            == before.pings().dom().contains(number) && after.pings()[number]
            == before.pings()[number],
        m.msgnum == (before.msgnum() + 1) % 256,
        after.msgnum() == m.msgnum,
        m.typ == typ,
        m.from == before.username(),
        m.to == to,
        m.content == content,
        m.crc == wire::checksum(m.raw()),
        after.username() == before.username(),
{
    assert(m.raw() == (MessageView { crc: 0, ..m }).raw());
}

/// Whether one text stands somewhere in another.
pub open spec fn mentions(s: Seq<char>, part: Seq<char>) -> bool {
    exists|i: int|
        0 <= i <= s.len() - part.len() && #[trigger] s.subrange(i, i + part.len()) == part
}

/// A text that stands at a place stands somewhere.
proof fn stands_at(s: Seq<char>, part: Seq<char>, i: int)
    requires
        0 <= i <= s.len() - part.len(),
        forall|j: int| 0 <= j < part.len() ==> #[trigger] part[j] == s[i + j],
    ensures
        mentions(s, part),
{
    assert(s.subrange(i, i + part.len()) =~= part);
}

/// The help mentions every command, every message type and every volume, and how to send a message.
pub proof fn help_is_complete()
    ensures
        mentions(HELP@, "/connect"@),
        mentions(HELP@, "/msg"@),
        mentions(HELP@, "/to"@),
        mentions(HELP@, "/volume"@),
        mentions(HELP@, "/whos_here?"@),
        mentions(HELP@, "/quit"@),
        mentions(HELP@, "/help"@),
        mentions(HELP@, "private_message"@),
        mentions(HELP@, "broadcast"@),
        mentions(HELP@, "blind_broadcast"@),
        mentions(HELP@, "loud"@),
        mentions(HELP@, "normal"@),
        mentions(HELP@, "quiet"@),
        mentions(HELP@, "mute"@),
        mentions(HELP@, "block"@),
        mentions(HELP@, "Three return presses sends a message"@),
{
    reveal_strlit("
Usage:

Sending messages:
  Three return presses sends a message, this allows you to compose
  paragraphs before sending. ([defect], the terminal UI makes it so you can't
  edit them though).

Commands:
  /connect <list of addresses>
    Open a connection to each address and send them a connection message.
  /msg [pm|private|private_message, bc|broadcast, bbc|blind_broadcast]
    The next message will be sent to either a configured private message
    group or broadcast. Blind broadcast doesn't publish the set of recipients,
    while normal broadcast does. Default is broadcast\n
  /to <list of usernames and/or addresses>
    Configures who private messages will be sent to. Default is an empty list.
  /volume [debug|loud, normal|default, quiet, block|mute] <usernames and/or addresses>
    Configures what messages to print from list of addresses/usernames
    - loud: prints every message received.
    - normal: prints broadcast, private, and connection messages.
    - quiet: prints private messages only
    - mute: blocks all messages and sends a NACK to the sender to let them know\n
  /whos_here?
    Print out a list of connected peers.
  /quit
    Send disconnect messages to all open connections and terminate the application.
  /help
    Print this help message.
");
    assert(HELP@.len() == 1283);
    reveal_strlit("/connect");
    stands_at(HELP@, "/connect"@, 206);
    reveal_strlit("/msg");
    stands_at(HELP@, "/msg"@, 311);
    reveal_strlit("/to");
    stands_at(HELP@, "/to"@, 589);
    reveal_strlit("/volume");
    stands_at(HELP@, "/volume"@, 711);
    reveal_strlit("/whos_here?");
    stands_at(HELP@, "/whos_here?"@, 1101);
    reveal_strlit("/quit");
    stands_at(HELP@, "/quit"@, 1156);
    reveal_strlit("/help");
    stands_at(HELP@, "/help"@, 1248);
    reveal_strlit("private_message");
    stands_at(HELP@, "private_message"@, 328);
    reveal_strlit("broadcast");
    stands_at(HELP@, "broadcast"@, 348);
    reveal_strlit("blind_broadcast");
    stands_at(HELP@, "blind_broadcast"@, 363);
    reveal_strlit("loud");
    stands_at(HELP@, "loud"@, 726);
    reveal_strlit("normal");
    stands_at(HELP@, "normal"@, 542);
    reveal_strlit("quiet");
    stands_at(HELP@, "quiet"@, 748);
    reveal_strlit("mute");
    stands_at(HELP@, "mute"@, 761);
    reveal_strlit("block");
    stands_at(HELP@, "block"@, 755);
    reveal_strlit("Three return presses sends a message");
    stands_at(HELP@, "Three return presses sends a message"@, 29);
}

} // verus!
