//! Commands: what the words of a command line mean.

use crate::addr;
use crate::addr::{Addr, AddrView};
use crate::buffers;
use crate::message::MsgTyp;
use crate::peer;
use crate::peer::{ConfigView, PeerMap, PeerVolume};
use crate::terminal::HELP;
use crate::text;
use bytes::Bytes;
use vstd::prelude::*;
use vstd::string::StringExecFns;

verus! {

/// What a list of addresses stands for.
pub open spec fn addr_views(list: Seq<Addr>) -> Seq<AddrView> {
    Seq::new(list.len(), |i: int| list[i]@)
}

/// How addresses are written.
pub open spec fn addr_texts(list: Seq<AddrView>) -> Seq<Seq<char>> {
    Seq::new(list.len(), |i: int| list[i].text)
}

/// Addresses as they stand in a message: their texts, with commas between them.
pub open spec fn addr_bytes(list: Seq<AddrView>) -> Seq<u8> {
    vstd::utf8::encode_utf8(text::joined(addr_texts(list), ","@))
}

/// Whoever receives a message can tell its recipients apart: between the commas stand the texts of
/// the addresses, none of which holds a comma.
pub proof fn recipients_can_be_told(list: Seq<AddrView>)
    requires
        list.len() > 0,
        forall|i: int| 0 <= i < list.len() ==> !(#[trigger] list[i]).text.contains(','),
    ensures
        vstd::utf8::valid_utf8(addr_bytes(list)),
        text::pieces(vstd::utf8::decode_utf8(addr_bytes(list)), ',') == addr_texts(list),
{
    let s = text::joined(addr_texts(list), ","@);
    reveal_strlit(",");
    assert(","@ =~= seq![',']);
    vstd::utf8::encode_utf8_valid_utf8(s);
    vstd::utf8::encode_utf8_decode_utf8(s);
    text::pieces_of_joined(addr_texts(list), ',');
}

/// Whoever can read each of some addresses can read all of them back from a message: the pieces
/// between the commas, read one by one, are the addresses, in order and as often as they occur.
pub proof fn recipients_read_back(
    list: Seq<AddrView>,
    read: spec_fn(Seq<char>) -> Option<AddrView>,
)
    requires
        list.len() > 0,
        forall|i: int| 0 <= i < list.len() ==> !(#[trigger] list[i]).text.contains(','),
        forall|i: int| 0 <= i < list.len() ==> read((#[trigger] list[i]).text) == Some(list[i]),
    ensures
        ({
            let found = text::pieces(vstd::utf8::decode_utf8(addr_bytes(list)), ',');
            &&& found.len() == list.len()
            &&& forall|i: int|
                0 <= i < list.len() ==> read(#[trigger] found[i]) == Some(list[i])
        }),
{
    recipients_can_be_told(list);
    let found = text::pieces(vstd::utf8::decode_utf8(addr_bytes(list)), ',');
    assert forall|i: int| 0 <= i < list.len() implies read(#[trigger] found[i]) == Some(
        list[i],
    ) by {
        assert(found[i] == list[i].text);
    }
}

/// IPv4 addresses can be read back from a message: the pieces between the commas, none of which is
/// empty, read one by one, are their hosts and ports, in order and as often as they occur.
pub proof fn v4_recipients_read_back(list: Seq<AddrView>)
    requires
        list.len() > 0,
        forall|i: int| 0 <= i < list.len() ==> (#[trigger] list[i]).is_v4(),
    ensures
        vstd::utf8::valid_utf8(addr_bytes(list)),
        ({
            let found = text::pieces(vstd::utf8::decode_utf8(addr_bytes(list)), ',');
            &&& found.len() == list.len()
            &&& forall|i: int|
                0 <= i < list.len() ==> (#[trigger] found[i]).len() > 0 && addr::read_v4(found[i])
                    == list[i]
        }),
{
    assert forall|i: int| 0 <= i < list.len() implies !(#[trigger] list[i]).text.contains(
        ',',
    ) by {
        addr::v4_reads_back(list[i]);
    }
    recipients_can_be_told(list);
    let found = text::pieces(vstd::utf8::decode_utf8(addr_bytes(list)), ',');
    assert forall|i: int| 0 <= i < list.len() implies (#[trigger] found[i]).len() > 0
        && addr::read_v4(found[i]) == list[i] by {
        assert(found[i] == list[i].text);
        addr::v4_reads_back(list[i]);
    }
}

/// Writes addresses as they stand in a message.
pub fn into_bytes(peers: &Vec<Addr>) -> (r: Bytes)
    ensures
        buffers::octets(r) == addr_bytes(addr_views(peers@)),
{
    let mut r = String::new();
    let ghost all = addr_texts(addr_views(peers@));
    let mut i: usize = 0;
    while i < peers.len()
        invariant
            i <= peers@.len(),
            all == addr_texts(addr_views(peers@)),
            r@ == text::joined(all.take(i as int), ","@),
        decreases peers@.len() - i,
    {
        text::join_next(&mut r, i == 0, ",", peers[i].text.as_str(), Ghost(all.take(i as int)));
        assert(all.take(i as int).push(peers@[i as int].text@) =~= all.take(i + 1));
        i += 1;
    }
    assert(all.take(i as int) =~= all);
    Bytes::from(r.as_str().as_bytes())
}

/// Copies a list of addresses.
pub(crate) fn copy_addrs(list: &Vec<Addr>) -> (r: Vec<Addr>)
    ensures
        addr_views(r@) == addr_views(list@),
{
    let mut r: Vec<Addr> = Vec::new();
    let mut i: usize = 0;
    while i < list.len()
        invariant
            i <= list@.len(),
            addr_views(r@) == addr_views(list@).take(i as int),
        decreases list@.len() - i,
    {
        let ghost before = r@;
        r.push(list[i].clone());
        assert(addr_views(r@) =~= addr_views(before).push(list@[i as int]@));
        assert(addr_views(r@) =~= addr_views(list@).take(i + 1));
        i += 1;
    }
    assert(addr_views(list@).take(i as int) =~= addr_views(list@));
    r
}

/// Finds those of some addresses whose peers are not blocked.
pub fn unblocked_peers(peer_map: &PeerMap, addrs: &Vec<Addr>) -> (r: Vec<Addr>)
    ensures
        addr_views(r@) == peer::unblocked(peer_map@, addr_views(addrs@)),
{
    let ghost all = addr_views(addrs@);
    let mut r: Vec<Addr> = Vec::new();
    let mut i: usize = 0;
    proof {
        reveal(Seq::filter);
        assert(addr_views(r@) =~= peer::unblocked(peer_map@, all.take(0)));
    }
    while i < addrs.len()
        invariant
            i <= addrs@.len(),
            all == addr_views(addrs@),
            addr_views(r@) == peer::unblocked(peer_map@, all.take(i as int)),
        decreases addrs@.len() - i,
    {
        let blocked = match peer_map.inner.get(&addrs[i]) {
            None => false,
            Some(conf) => conf.vol == PeerVolume::Mute,
        };
        let ghost before = r@;
        proof {
            reveal(Seq::filter);
            assert(all.take(i + 1).drop_last() =~= all.take(i as int));
            assert(blocked == peer::is_blocked(peer_map@, all.take(i + 1).last()));
        }
        if !blocked {
            r.push(addrs[i].clone());
            assert(addr_views(r@) =~= addr_views(before).push(all[i as int]));
        }
        i += 1;
    }
    assert(all.take(i as int) =~= all);
    r
}

/// A word of a command.
pub struct Word {
    pub text: String,
    /// The address that the word can be read as, if it can.
    pub addr: Option<Addr>,
}

/// What a [`Word`] stands for.
pub struct WordView {
    pub text: Seq<char>,
    pub addr: Option<AddrView>,
}

impl View for Word {
    type V = WordView;

    open spec fn view(&self) -> WordView {
        WordView {
            text: self.text@,
            addr: match self.addr {
                Some(a) => Some(a@),
                None => None,
            },
        }
    }
}

/// What a list of words stands for.
pub open spec fn word_views(list: Seq<Word>) -> Seq<WordView> {
    Seq::new(list.len(), |i: int| list[i]@)
}

/// The address that a word stands for: that of the user who goes by the word, or else the address
/// that the word can be read as.
pub open spec fn peer_named(users: Map<Seq<u8>, AddrView>, word: WordView) -> Option<AddrView> {
    let name = vstd::utf8::encode_utf8(word.text);
    if users.dom().contains(name) {
        Some(users[name])
    } else {
        word.addr
    }
}

/// What is said of a word that stands for no address.
pub open spec fn no_peer(word: WordView) -> Seq<char> {
    "Peer "@ + word.text + " cannot be parsed as a username or address"@
}

/// The addresses that words stand for, or what is said of the first word that stands for none.
pub open spec fn peers_named(users: Map<Seq<u8>, AddrView>, words: Seq<WordView>) -> Result<
    Seq<AddrView>,
    Seq<char>,
>
    decreases words.len(),
{
    if words.len() == 0 {
        Ok(Seq::empty())
    } else {
        match peer_named(users, words[0]) {
            None => Err(no_peer(words[0])),
            Some(addr) => match peers_named(users, words.skip(1)) {
                Ok(rest) => Ok(seq![addr] + rest),
                Err(e) => Err(e),
            },
        }
    }
}

/// Words stand for addresses if each of them does, one for one. If one does not, the first such is
/// told.
pub proof fn each_word_counts(users: Map<Seq<u8>, AddrView>, words: Seq<WordView>)
    ensures
        match peers_named(users, words) {
            Ok(addrs) => {
                &&& addrs.len() == words.len()
                &&& forall|i: int|
                    0 <= i < words.len() ==> peer_named(users, #[trigger] words[i]) == Some(
                        addrs[i],
                    )
            },
            Err(e) => exists|k: int|
                {
                    &&& 0 <= k < words.len()
                    &&& peer_named(users, #[trigger] words[k]) is None
                    &&& e == no_peer(words[k])
                    &&& forall|i: int| 0 <= i < k ==> peer_named(users, #[trigger] words[i]) is Some
                },
        },
    decreases words.len(),
{
    if words.len() > 0 {
        let rest = words.skip(1);
        each_word_counts(users, rest);
        match peer_named(users, words[0]) {
            None => {
                assert(peer_named(users, words[0]) is None);
            },
            Some(addr) => match peers_named(users, rest) {
                Ok(addrs) => {
                    let all = seq![addr] + addrs;
                    assert forall|i: int| 0 <= i < words.len() implies peer_named(
                        users,
                        #[trigger] words[i],
                    ) == Some(all[i]) by {
                        if i > 0 {
                            assert(rest[i - 1] == words[i]);
                        }
                    }
                },
                Err(e) => {
                    let j = choose|k: int|
                        {
                            &&& 0 <= k < rest.len()
                            &&& peer_named(users, #[trigger] rest[k]) is None
                            &&& e == no_peer(rest[k])
                            &&& forall|i: int|
                                0 <= i < k ==> peer_named(users, #[trigger] rest[i]) is Some
                        };
                    assert(words[j + 1] == rest[j]);
                    assert forall|i: int| 0 <= i < j + 1 implies peer_named(
                        users,
                        #[trigger] words[i],
                    ) is Some by {
                        if i > 0 {
                            assert(rest[i - 1] == words[i]);
                        }
                    }
                },
            },
        }
    }
}

/// What a list of addresses, or an error in its place, stands for.
pub open spec fn peers_result(r: Result<Vec<Addr>, String>) -> Result<Seq<AddrView>, Seq<char>> {
    match r {
        Ok(list) => Ok(addr_views(list@)),
        Err(e) => Err(e@),
    }
}

/// The commands.
#[derive(Clone, Copy, Debug, PartialEq, Eq, Structural)]
pub enum Command {
    Connect,
    Msg,
    To,
    Volume,
    WhosHere,
    Quit,
    Help,
    Unknown,
}

/// The command that goes by a name, which is given in small letters.
pub open spec fn command_of(name: Seq<char>) -> Command {
    if name == "/connect"@ {
        Command::Connect
    } else if name == "/msg"@ {
        Command::Msg
    } else if name == "/to"@ {
        Command::To
    } else if name == "/volume"@ {
        Command::Volume
    } else if name == "/whos_here?"@ || name == "/here?"@ || name == "/whos_here"@ || name
        == "/here"@ {
        Command::WhosHere
    } else if name == "/quit"@ || name == "/exit"@ {
        Command::Quit
    } else if name == "/help"@ {
        Command::Help
    } else {
        Command::Unknown
    }
}

/// Finds the command that goes by a name, which is given in small letters.
pub fn command_named(name: &str) -> (r: Command)
    ensures
        r == command_of(name@),
{
    if text::same_text(name, "/connect") {
        Command::Connect
    } else if text::same_text(name, "/msg") {
        Command::Msg
    } else if text::same_text(name, "/to") {
        Command::To
    } else if text::same_text(name, "/volume") {
        Command::Volume
    } else if text::same_text(name, "/whos_here?") || text::same_text(name, "/here?")
        || text::same_text(name, "/whos_here") || text::same_text(name, "/here") {
        Command::WhosHere
    } else if text::same_text(name, "/quit") || text::same_text(name, "/exit") {
        Command::Quit
    } else if text::same_text(name, "/help") {
        Command::Help
    } else {
        Command::Unknown
    }
}

/// The message type that the user can ask for by a name, which is given in small letters.
pub open spec fn typ_of(name: Seq<char>) -> Option<MsgTyp> {
    if name == "pm"@ || name == "private"@ || name == "private_message"@ {
        Some(MsgTyp::PM)
    } else if name == "bc"@ || name == "broadcast"@ {
        Some(MsgTyp::BC)
    } else if name == "bbc"@ || name == "blind_broadcast"@ {
        Some(MsgTyp::BBC)
    } else {
        None
    }
}

/// Finds the message type that the user can ask for by a name, which is given in small letters.
pub fn typ_named(name: &str) -> (r: Option<MsgTyp>)
    ensures
        r == typ_of(name@),
{
    if text::same_text(name, "pm") || text::same_text(name, "private") || text::same_text(
        name,
        "private_message",
    ) {
        Some(MsgTyp::PM)
    } else if text::same_text(name, "bc") || text::same_text(name, "broadcast") {
        Some(MsgTyp::BC)
    } else if text::same_text(name, "bbc") || text::same_text(name, "blind_broadcast") {
        Some(MsgTyp::BBC)
    } else {
        None
    }
}

/// The volume that goes by a name, which is given in small letters.
pub open spec fn volume_of(name: Seq<char>) -> Option<PeerVolume> {
    if name == "debug"@ || name == "loud"@ {
        Some(PeerVolume::Loud)
    } else if name == "normal"@ || name == "default"@ {
        Some(PeerVolume::Normal)
    } else if name == "quiet"@ {
        Some(PeerVolume::Quiet)
    } else if name == "block"@ || name == "mute"@ {
        Some(PeerVolume::Mute)
    } else {
        None
    }
}

/// Finds the volume that goes by a name, which is given in small letters.
pub fn volume_named(name: &str) -> (r: Option<PeerVolume>)
    ensures
        r == volume_of(name@),
{
    if text::same_text(name, "debug") || text::same_text(name, "loud") {
        Some(PeerVolume::Loud)
    } else if text::same_text(name, "normal") || text::same_text(name, "default") {
        Some(PeerVolume::Normal)
    } else if text::same_text(name, "quiet") {
        Some(PeerVolume::Quiet)
    } else if text::same_text(name, "block") || text::same_text(name, "mute") {
        Some(PeerVolume::Mute)
    } else {
        None
    }
}

/// The peers, once each of some has been given a volume.
pub open spec fn with_volumes(
    peers: Map<AddrView, ConfigView>,
    addrs: Seq<AddrView>,
    vol: PeerVolume,
) -> Map<AddrView, ConfigView>
    decreases addrs.len(),
{
    if addrs.len() == 0 {
        peers
    } else {
        peer::with_volume(with_volumes(peers, addrs.drop_last(), vol), addrs.last(), vol)
    }
}

/// Each peer that is named gets the volume, and nothing changes of the others. Names and addresses
/// stay.
pub proof fn volumes_are_set(
    peers: Map<AddrView, ConfigView>,
    addrs: Seq<AddrView>,
    vol: PeerVolume,
    addr: AddrView,
)
    ensures
        ({
            let after = with_volumes(peers, addrs, vol);
            let (old_conf, conf) = (peer::config_of(peers, addr), peer::config_of(after, addr));
            &&& addrs.contains(addr) ==> after.dom().contains(addr) && conf == ConfigView {
                vol,
                ..old_conf
            }
            &&& !addrs.contains(addr) ==> conf == old_conf && after.dom().contains(addr)
                == peers.dom().contains(addr)
        }),
    decreases addrs.len(),
{
    if addrs.len() > 0 {
        let rest = addrs.drop_last();
        volumes_are_set(peers, rest, vol, addr);
        assert(addrs =~= rest.push(addrs.last()));
        if addrs.contains(addr) && addr != addrs.last() {
            assert(rest[addrs.index_of(addr)] == addr);
        }
        if rest.contains(addr) {
            assert(addrs[rest.index_of(addr)] == addr);
        }
        if addr == addrs.last() {
            assert(addrs[addrs.len() - 1] == addr);
        }
    }
}

/// The book and the names still go together once each of some peers has been given a volume.
pub proof fn volumes_keep_order(
    peers: Map<AddrView, ConfigView>,
    users: Map<Seq<u8>, AddrView>,
    addrs: Seq<AddrView>,
    vol: PeerVolume,
)
    requires
        peer::in_order(peers, users),
    ensures
        peer::in_order(with_volumes(peers, addrs, vol), users),
    decreases addrs.len(),
{
    if addrs.len() > 0 {
        volumes_keep_order(peers, users, addrs.drop_last(), vol);
        peer::stays_in_order(
            with_volumes(peers, addrs.drop_last(), vol),
            users,
            addrs.last(),
            vol,
            Err(Seq::empty()),
        );
    }
}

/// Sets the volume of each of some peers.
pub(crate) fn set_volumes(peer_map: &mut PeerMap, addrs: &Vec<Addr>, vol: PeerVolume)
    ensures
        final(peer_map)@ == with_volumes(old(peer_map)@, addr_views(addrs@), vol),
{
    let ghost all = addr_views(addrs@);
    let mut i: usize = 0;
    while i < addrs.len()
        invariant
            i <= addrs@.len(),
            all == addr_views(addrs@),
            peer_map@ == with_volumes(old(peer_map)@, all.take(i as int), vol),
        decreases addrs@.len() - i,
    {
        peer_map.set_volume(&addrs[i], vol);
        assert(all.take(i + 1).drop_last() =~= all.take(i as int));
        i += 1;
    }
    assert(all.take(i as int) =~= all);
}

/// How a connected peer is listed: name and address.
pub open spec fn listed(peers: Map<AddrView, ConfigView>, addr: AddrView) -> Seq<char> {
    let name = if !peers.dom().contains(addr) {
        "unknown: dangling connection"@
    } else if vstd::utf8::valid_utf8(peers[addr].username) {
        vstd::utf8::decode_utf8(peers[addr].username)
    } else {
        "unknown: not unicode"@
    };
    name + "@"@ + addr.text
}

/// How each of some connected peers is listed.
pub open spec fn all_listed(peers: Map<AddrView, ConfigView>, addrs: Seq<AddrView>) -> Seq<
    Seq<char>,
> {
    Seq::new(addrs.len(), |i: int| listed(peers, addrs[i]))
}

/// The list of connected peers as it is shown.
pub open spec fn roster(peers: Map<AddrView, ConfigView>, addrs: Seq<AddrView>) -> Seq<char> {
    "Connected Peers:\n\t"@ + text::joined(all_listed(peers, addrs), "\n\t"@) + "\n\n"@
}

/// Writes how a connected peer is listed.
fn list_peer(peer_map: &PeerMap, addr: &Addr) -> (r: String)
    ensures
        r@ == listed(peer_map@, addr@),
{
    let mut r = match peer_map.inner.get(addr) {
        None => "unknown: dangling connection".to_string(),
        Some(conf) => match text::from_utf8(&conf.username) {
            Err(_) => "unknown: not unicode".to_string(),
            Ok(name) => name.to_string(),
        },
    };
    r.append("@");
    r.append(addr.text.as_str());
    r
}

/// Writes the list of connected peers.
pub fn list_peers(peer_map: &PeerMap, addrs: &Vec<Addr>) -> (r: String)
    ensures
        r@ == roster(peer_map@, addr_views(addrs@)),
{
    let ghost all = all_listed(peer_map@, addr_views(addrs@));
    let mut list = String::new();
    let mut i: usize = 0;
    while i < addrs.len()
        invariant
            i <= addrs@.len(),
            all == all_listed(peer_map@, addr_views(addrs@)),
            list@ == text::joined(all.take(i as int), "\n\t"@),
        decreases addrs@.len() - i,
    {
        let entry = list_peer(peer_map, &addrs[i]);
        text::join_next(&mut list, i == 0, "\n\t", entry.as_str(), Ghost(all.take(i as int)));
        assert(all.take(i as int).push(entry@) =~= all.take(i + 1));
        i += 1;
    }
    assert(all.take(i as int) =~= all);
    let mut r = "Connected Peers:\n\t".to_string();
    r.append(list.as_str());
    r.append("\n\n");
    r
}

/// Says that a command is unknown, given what follows its name.
pub fn unknown_command(rest: &str) -> (r: String)
    ensures
        r@ == "Unknown command "@ + rest@,
{
    let mut r = "Unknown command ".to_string();
    r.append(rest);
    r
}

/// What a command comes to.
pub enum Plan {
    /// It cannot be carried out, for this reason.
    Fail(Seq<char>),
    /// A message is sent: its type, the recipients that it names, and its recipients.
    Send(MsgTyp, Seq<u8>, Seq<AddrView>),
    /// A text is shown.
    Show(Seq<char>),
    /// Messages are of this type from now on.
    UseTyp(MsgTyp),
    /// Private messages go to these addresses from now on.
    UseTo(Seq<AddrView>),
    /// The messages of these peers are shown as loud as this from now on.
    UseVolume(PeerVolume, Seq<AddrView>),
}

/// What a command comes to. The first word is its name.
pub open spec fn plan(
    command: Command,
    line: Seq<char>,
    words: Seq<WordView>,
    users: Map<Seq<u8>, AddrView>,
    peers: Map<AddrView, ConfigView>,
    connected: Seq<AddrView>,
) -> Plan {
    match command {
        Command::Connect => match peers_named(users, words.skip(1)) {
            Err(e) => Plan::Fail(e),
            Ok(addrs) => Plan::Send(MsgTyp::Connect, addr_bytes(addrs), addrs),
        },
        Command::Msg => if words.len() < 2 {
            Plan::Fail("Insufficient arguments"@)
        } else {
            match typ_of(text::lowercase(text::trimmed(words[1].text))) {
                None => Plan::Fail("Unknown message type "@ + words[1].text),
                Some(typ) => Plan::UseTyp(typ),
            }
        },
        Command::To => match peers_named(users, words.skip(1)) {
            Err(e) => Plan::Fail(e),
            Ok(addrs) => Plan::UseTo(addrs),
        },
        Command::Volume => if words.len() < 2 {
            Plan::Fail("Insufficient arguments"@)
        } else {
            match volume_of(text::lowercase(text::trimmed(words[1].text))) {
                None => Plan::Fail("Unknown volume setting "@ + words[1].text),
                Some(vol) => match peers_named(users, words.skip(2)) {
                    Err(e) => Plan::Fail(e),
                    Ok(addrs) => Plan::UseVolume(vol, addrs),
                },
            }
        },
        Command::WhosHere => Plan::Show(roster(peers, connected)),
        Command::Quit => Plan::Send(MsgTyp::Disconnect, Seq::empty(), connected),
        Command::Help => Plan::Show(HELP@),
        Command::Unknown => Plan::Fail("Unknown command "@ + text::remaining_words(line)),
    }
}

} // verus!
