//! The terminal: what the user types, and what the user is shown.

use crate::addr::{Addr, AddrView};
use crate::buffers;
use crate::clock;
use crate::commands;
use crate::commands::{Command, Plan, Word, WordView};
use crate::message;
use crate::message::{Message, MessageView, MsgBuilder, MsgTyp};
use crate::peer;
use crate::peer::{ConfigView, PeerMap, PeerVolume, SockMap, UserMap};
use crate::text;
use bytes::{Bytes, BytesMut};
use std::time::SystemTime;
use vstd::prelude::*;
use vstd::string::{StrSliceExecFns, StringExecFns};

verus! {

/// What the user can type.
pub const HELP: &'static str = "
Usage:

Sending messages:
  Three return presses sends a message, this allows you to compose
  paragraphs before sending. ([defect], the terminal UI makes it so you can't
  edit them though).

Commands:
  /connect <list of addresses>
    Open a connection to each address and send them a connection message.
  /msg [pm|private|private_message, bc|broadcast, bbc|blind_broadcast]
    The next message will be sent to either a configured private message
    group or broadcast. Blind broadcast doesn't publish the set of recipients,
    while normal broadcast does. Default is broadcast\n
  /to <list of usernames and/or addresses>
    Configures who private messages will be sent to. Default is an empty list.
  /volume [debug|loud, normal|default, quiet, block|mute] <usernames and/or addresses>
    Configures what messages to print from list of addresses/usernames
    - loud: prints every message received.
    - normal: prints broadcast, private, and connection messages.
    - quiet: prints private messages only
    - mute: blocks all messages and sends a NACK to the sender to let them know\n
  /whos_here?
    Print out a list of connected peers.
  /quit
    Send disconnect messages to all open connections and terminate the application.
  /help
    Print this help message.
";

/// Shown while a message is being composed.
pub const CARET: &'static str = "+ ";

/// Shown after a command that went well.
pub const COMMAND_OK: &'static str = "\rok\n> ";

/// What is shown after a command that did not go well.
pub fn command_failed(err: &str) -> (r: String)
    ensures
        r@ == "\rCommand failed: "@ + err@ + "\n> "@,
{
    let mut r = "\rCommand failed: ".to_string();
    r.append(err);
    r.append("\n> ");
    r
}

/// What the terminal holds between two calls.
pub struct TermView {
    /// The type of the messages that are composed.
    pub typ: MsgTyp,
    /// To whom private messages go.
    pub to: Seq<AddrView>,
    /// How far the input has been searched for the end of a line.
    pub idx: nat,
    /// The part of a message that has been composed.
    pub msg: Seq<u8>,
}

/// What a line, or the want of one, comes to.
pub enum Reading {
    /// The end of the line is missing.
    NeedInput,
    /// The line belongs to a message that goes on.
    Caret,
    /// The line is a command.
    Command(Seq<char>),
    /// The line ends a message, which is this.
    Transmit(Seq<u8>),
}

/// Whether a line ends at a place, and at none before it from `from` on.
pub open spec fn first_newline(b: Seq<u8>, from: int, i: int) -> bool {
    from <= i < b.len() && b[i] == 10 && forall|j: int| from <= j < i ==> b[j] != 10
}

/// Whether a message has been ended by three newlines.
pub open spec fn is_ended(msg: Seq<u8>) -> bool {
    msg.len() >= 3 && msg[msg.len() - 3] == 10 && msg[msg.len() - 2] == 10 && msg[msg.len() - 1]
        == 10
}

impl TermView {
    /// What a line of text comes to, and what is held then. The line belongs to the message that is
    /// being composed, unless it is a command.
    pub open spec fn read_text(self, line: Seq<char>) -> (Reading, TermView) {
        if line.len() > 0 && line[0] == '/' {
            (Reading::Command(line), self)
        } else {
            let msg = self.msg + vstd::utf8::encode_utf8(line) + seq![10u8];
            if is_ended(msg) {
                (
                    Reading::Transmit(msg.take(msg.len() - 3)),
                    TermView { msg: Seq::empty(), ..self },
                )
            } else {
                (Reading::Caret, TermView { msg, ..self })
            }
        }
    }

    /// Reads lines up to the first that is text. Gives what it comes to, what is held then, and
    /// what is left of the input. Lines that are not text belong, as they are, to the message that
    /// is being composed.
    ///
    /// The search for the end of a line goes on where it had stopped.
    pub open spec fn read(self, b: Seq<u8>) -> (Reading, TermView, Seq<u8>)
        decreases b.len(),
    {
        if exists|i: int| first_newline(b, self.idx as int, i) {
            let end = choose|i: int| first_newline(b, self.idx as int, i);
            let cut = end + 1;
            let (line, rest) = (b.take(cut), b.skip(cut));
            if vstd::utf8::valid_utf8(line) {
                let (reading, after) = (TermView { idx: 0, ..self }).read_text(
                    text::trimmed(vstd::utf8::decode_utf8(line)),
                );
                (reading, after, rest)
            } else {
                (TermView { idx: 0, msg: self.msg + line, ..self }).read(rest)
            }
        } else {
            (Reading::NeedInput, TermView { idx: b.len(), ..self }, b)
        }
    }

    /// To whom a message goes: broadcasts to the audience, and the rest to whom the user has named.
    pub open spec fn recipients(self, audience: Seq<AddrView>) -> Seq<AddrView> {
        if self.typ is BC || self.typ is BBC {
            audience
        } else {
            self.to
        }
    }

    /// The recipients that a message names: all of them, unless it is a blind broadcast.
    pub open spec fn published(self, audience: Seq<AddrView>) -> Seq<u8> {
        if self.typ is BBC {
            Seq::empty()
        } else {
            commands::addr_bytes(self.recipients(audience))
        }
    }
}

/// To whom broadcasts go: all who are connected and not blocked.
pub open spec fn audience<S>(sock_map: SockMap<S>, peer_map: PeerMap) -> Seq<AddrView> {
    peer::unblocked(peer_map@, sock_map.connected_list())
}

/// Whether the audience is everyone who is connected and not blocked, each once.
pub open spec fn audience_is_complete<S>(sock_map: SockMap<S>, peer_map: PeerMap) -> bool {
    peer::once_each(
        audience(sock_map, peer_map),
        peer::open_to(peer_map@, sock_map.connected()),
    )
}

/// What has to be done about what the user typed.
pub enum Event {
    /// More input is needed.
    NeedInput,
    /// Show [`CARET`], and go on.
    Caret,
    /// Look up which words of the command line can be read as addresses, and carry the command out.
    Command { line: String, words: Vec<String> },
    /// Show the notice, and send the message to the recipients.
    Transmit { msg: Message, recipients: Vec<Addr>, notice: String },
}

/// What carrying out a command leaves to be done.
pub enum Outcome {
    /// Nothing.
    Done,
    /// Show a text.
    Show(String),
    /// Send a message.
    Send { msg: Message, recipients: Vec<Addr> },
}

/// The terminal.
#[derive(Debug)]
pub struct TerminalCodec {
    typ: MsgTyp,
    to: Vec<Addr>,
    idx: usize,
    msg_buf: BytesMut,
}

impl View for TerminalCodec {
    type V = TermView;

    closed spec fn view(&self) -> TermView {
        TermView {
            typ: self.typ,
            to: commands::addr_views(self.to@),
            idx: self.idx as nat,
            msg: buffers::contents(self.msg_buf),
        }
    }
}

/// Whether a command was carried out as planned: what it did to the terminal, the peers and the
/// builder, and what it left to be done. Nothing else changes.
pub open spec fn carried_out(
    plan: Plan,
    old_term: TermView,
    term: TermView,
    old_peers: Map<AddrView, ConfigView>,
    peers: Map<AddrView, ConfigView>,
    old_builder: MsgBuilder,
    builder: MsgBuilder,
    r: Result<Outcome, String>,
) -> bool {
    match plan {
        Plan::Fail(e) => {
            &&& r matches Err(f) && f@ == e
            &&& term == old_term
            &&& peers == old_peers
            &&& builder == old_builder
        },
        Plan::Send(typ, to, addrs) => {
            &&& r matches Ok(Outcome::Send { msg, recipients }) && commands::addr_views(recipients@)
                == addrs && old_builder.builds_now(builder, typ, to, Seq::empty(), msg@)
            &&& term == old_term
            &&& peers == old_peers
        },
        Plan::Show(s) => {
            &&& r matches Ok(Outcome::Show(t)) && t@ == s
            &&& term == old_term
            &&& peers == old_peers
            &&& builder == old_builder
        },
        Plan::UseTyp(typ) => {
            &&& r matches Ok(Outcome::Done)
            &&& term == TermView { typ, ..old_term }
            &&& peers == old_peers
            &&& builder == old_builder
        },
        Plan::UseTo(to) => {
            &&& r matches Ok(Outcome::Done)
            &&& term == TermView { to, ..old_term }
            &&& peers == old_peers
            &&& builder == old_builder
        },
        Plan::UseVolume(vol, addrs) => {
            &&& r matches Ok(Outcome::Done)
            &&& term == old_term
            &&& peers == commands::with_volumes(old_peers, addrs, vol)
            &&& builder == old_builder
        },
    }
}

/// Whether what was read was acted on: a message that is ended is built and goes to its recipients,
/// and a command line is split into its words.
pub open spec fn acted_on(
    reading: Reading,
    term: TermView,
    audience: Seq<AddrView>,
    old_builder: MsgBuilder,
    builder: MsgBuilder,
    r: Event,
) -> bool {
    match reading {
        Reading::NeedInput => r is NeedInput && builder == old_builder,
        Reading::Caret => r is Caret && builder == old_builder,
        Reading::Command(s) => {
            &&& r matches Event::Command { line, words } && line@ == s && text::texts(words@)
                == text::words(s) && words@.len() > 0
            &&& builder == old_builder
        },
        Reading::Transmit(content) => {
            r matches Event::Transmit { msg, recipients, notice } && commands::addr_views(
                recipients@,
            ) == term.recipients(audience) && notice@ == "\rTransmitting "@ + term.typ.words()
                + "\n> "@ && old_builder.builds_now(
                builder,
                term.typ,
                term.published(audience),
                content,
                msg@,
            )
        },
    }
}

/// How long it took until the answer to a message came.
pub enum Roundtrip {
    /// No message with that number is known.
    Unknown,
    /// So long.
    Took { secs: u64, nanos: u32 },
    /// The clock does not tell, for this reason.
    Failed(String),
}

/// What a [`Roundtrip`] stands for.
pub enum RoundtripView {
    Unknown,
    Took(u64, u32),
    Failed(Seq<char>),
}

impl View for Roundtrip {
    type V = RoundtripView;

    open spec fn view(&self) -> RoundtripView {
        match *self {
            Roundtrip::Unknown => RoundtripView::Unknown,
            Roundtrip::Took { secs, nanos } => RoundtripView::Took(secs, nanos),
            Roundtrip::Failed(e) => RoundtripView::Failed(e@),
        }
    }
}

/// What is said of how long an answer took.
pub open spec fn roundtrip_text(msgnum: u8, trip: RoundtripView) -> Seq<char> {
    match trip {
        RoundtripView::Unknown => "Unknown roundtrip msgtime for msgnum "@ + text::decimal(
            msgnum as nat,
        ) + ", there is no ping_map entry for that message.\n"@,
        RoundtripView::Took(secs, nanos) => "Roundtrip time for msgnum "@ + text::decimal(
            msgnum as nat,
        ) + " was "@ + clock::duration_text(secs, nanos) + ".\n"@,
        RoundtripView::Failed(e) => "Error computing roundtrip time for msgnum "@ + text::decimal(
            msgnum as nat,
        ) + ": Er: "@ + e + ".\n"@,
    }
}

/// Says how long an answer took, given how that time is written.
pub fn describe_time(msgnum: u8, time: &str) -> (r: String)
    ensures
        r@ == "Roundtrip time for msgnum "@ + text::decimal(msgnum as nat) + " was "@ + time@
            + ".\n"@,
{
    let mut r = "Roundtrip time for msgnum ".to_string();
    r.append(text::to_decimal(msgnum as u16).as_str());
    r.append(" was ");
    r.append(time);
    r.append(".\n");
    r
}

/// Says how long an answer took.
fn describe_roundtrip(msgnum: u8, trip: &Roundtrip) -> (r: String)
    requires
        trip matches Roundtrip::Took { secs, nanos } ==> nanos < 1_000_000_000,
    ensures
        r@ == roundtrip_text(msgnum, trip@),
{
    match trip {
        Roundtrip::Unknown => {
            let mut r = "Unknown roundtrip msgtime for msgnum ".to_string();
            r.append(text::to_decimal(msgnum as u16).as_str());
            r.append(", there is no ping_map entry for that message.\n");
            r
        },
        Roundtrip::Took { secs, nanos } => {
            describe_time(msgnum, clock::debug_duration(*secs, *nanos).as_str())
        },
        Roundtrip::Failed(e) => {
            let mut r = "Error computing roundtrip time for msgnum ".to_string();
            r.append(text::to_decimal(msgnum as u16).as_str());
            r.append(": Er: ");
            r.append(e.as_str());
            r.append(".\n");
            r
        },
    }
}

/// Whether a message of this type is shown at this volume.
pub open spec fn is_shown(vol: PeerVolume, typ: MsgTyp) -> bool {
    match vol {
        PeerVolume::Loud => true,
        PeerVolume::Normal => !typ.answers(),
        PeerVolume::Quiet => typ is PM,
        PeerVolume::Mute => false,
    }
}

/// Whether it is also said how long the answer took: at the highest volume, if the answer says what
/// it answers.
pub open spec fn is_timed(vol: PeerVolume, m: MessageView) -> bool {
    vol is Loud && m.typ.answers() && m.content.len() > 0
}

/// What the user is shown of a message, if anything: a line, and for an answer at the highest
/// volume, if it says what it answers, how long it took.
pub open spec fn rendered(vol: PeerVolume, m: MessageView, trip: RoundtripView) -> Seq<u8> {
    if !is_shown(vol, m.typ) {
        Seq::empty()
    } else if vol is Loud {
        let line = seq![13u8] + m.shown() + seq![10u8];
        if is_timed(vol, m) {
            line + vstd::utf8::encode_utf8(roundtrip_text(m.content[0], trip))
        } else {
            line
        }
    } else {
        m.shown() + seq![10u8]
    }
}

/// How long an answer took, given what the clock says of the time since the message was built.
pub fn roundtrip_of(reading: Result<(u64, u32), String>) -> (r: Roundtrip)
    requires
        reading matches Ok(time) ==> time.1 < 1_000_000_000,
    ensures
        r@ == (match reading {
            Ok(time) => RoundtripView::Took(time.0, time.1),
            Err(e) => RoundtripView::Failed(e@),
        }),
        r matches Roundtrip::Took { secs, nanos } ==> nanos < 1_000_000_000,
{
    match reading {
        Ok((secs, nanos)) => Roundtrip::Took { secs, nanos },
        Err(e) => Roundtrip::Failed(e),
    }
}

/// Writes what the user is shown of a message.
pub fn render(vol: PeerVolume, item: &Message, trip: &Roundtrip) -> (r: Vec<u8>)
    requires
        trip matches Roundtrip::Took { secs, nanos } ==> nanos < 1_000_000_000,
    ensures
        r@ == rendered(vol, item@, trip@),
{
    let mut r: Vec<u8> = Vec::new();
    match vol {
        PeerVolume::Loud => {
            r.push(13u8);
            message::put(&mut r, item.display().as_slice());
            r.push(10u8);
            match item.typ {
                MsgTyp::ACK | MsgTyp::NACK(_) => {
                    let bytes: &[u8] = &item.content;
                    if bytes.len() > 0 {
                        let said = describe_roundtrip(bytes[0], trip);
                        message::put(&mut r, said.as_str().as_bytes());
                    }
                },
                _ => {},
            }
        },
        PeerVolume::Normal => match item.typ {
            MsgTyp::PM | MsgTyp::BC | MsgTyp::BBC | MsgTyp::Connect | MsgTyp::Disconnect => {
                message::put(&mut r, item.display().as_slice());
                r.push(10u8);
            },
            _ => {},
        },
        PeerVolume::Quiet => match item.typ {
            MsgTyp::PM => {
                message::put(&mut r, item.display().as_slice());
                r.push(10u8);
            },
            _ => {},
        },
        PeerVolume::Mute => {},
    }
    assert(r@ =~= rendered(vol, item@, trip@));
    r
}

/// Writes what the user is shown of a message at the end of `dst`. Says whether `dst` had room for
/// that; if not, nothing is written.
pub fn put_shown(vol: PeerVolume, item: &Message, trip: &Roundtrip, dst: &mut BytesMut) -> (r: bool)
    requires
        trip matches Roundtrip::Took { secs, nanos } ==> nanos < 1_000_000_000,
    ensures
        r == (buffers::contents(*old(dst)).len() + rendered(vol, item@, trip@).len()
            <= isize::MAX),
        buffers::contents(*final(dst)) == (if r {
            buffers::contents(*old(dst)) + rendered(vol, item@, trip@)
        } else {
            buffers::contents(*old(dst))
        }),
{
    let shown = render(vol, item, trip);
    let limit = isize::MAX as usize;
    let fits = dst.len() <= limit && shown.len() <= limit - dst.len();
    if fits {
        dst.extend_from_slice(shown.as_slice());
    }
    fits
}

/// The volume that the user has set for whoever goes by a name. It is the usual one for a name that
/// goes with no known peer.
pub open spec fn volume_of_sender(
    users: Map<Seq<u8>, AddrView>,
    peers: Map<AddrView, ConfigView>,
    from: Seq<u8>,
) -> PeerVolume {
    if users.dom().contains(from) {
        peer::config_of(peers, users[from]).vol
    } else {
        PeerVolume::Normal
    }
}

/// Finds the volume that the user has set for whoever goes by a name.
pub fn sender_volume(user_map: &UserMap, peer_map: &PeerMap, from: &Bytes) -> (r: PeerVolume)
    ensures
        r == volume_of_sender(user_map@, peer_map@, buffers::octets(*from)),
{
    match user_map.inner.get(from) {
        None => PeerVolume::Normal,
        Some(addr) => match peer_map.inner.get(addr) {
            None => PeerVolume::Normal,
            Some(conf) => conf.vol,
        },
    }
}

/// Finds since when an answer is timed: since the message that it answers was built. There is no
/// such time where the answer is not timed, and where no message with that number is known.
pub fn timed_since<'a>(vol: PeerVolume, item: &Message, builder: &'a MsgBuilder) -> (r: Option<
    &'a SystemTime,
>)
    ensures
        ({
            let known = is_timed(vol, item@) && builder.pings().dom().contains(item@.content[0]);
            match r {
                Some(then) => known && *then == builder.pings()[item@.content[0]],
                None => !known,
            }
        }),
{
    let answers = match item.typ {
        MsgTyp::ACK | MsgTyp::NACK(_) => true,
        _ => false,
    };
    let bytes: &[u8] = &item.content;
    if vol == PeerVolume::Loud && answers && bytes.len() > 0 {
        builder.sent_at(bytes[0])
    } else {
        None
    }
}

/// Whether an answer can have taken so long: whatever the clock says, if the message that it
/// answers is known, and else unknown.
pub open spec fn may_be(
    vol: PeerVolume,
    m: MessageView,
    pings: Map<u8, SystemTime>,
    trip: RoundtripView,
) -> bool {
    is_timed(vol, m) ==> (trip is Unknown <==> !pings.dom().contains(m.content[0]))
}

/// Whether a message was written as it is shown, where there was room for it.
pub open spec fn encoded(
    vol: PeerVolume,
    m: MessageView,
    pings: Map<u8, SystemTime>,
    old_dst: Seq<u8>,
    dst: Seq<u8>,
    fits: bool,
) -> bool {
    exists|trip: RoundtripView|
        {
            let shown = #[trigger] rendered(vol, m, trip);
            &&& may_be(vol, m, pings, trip)
            &&& fits == (old_dst.len() + shown.len() <= isize::MAX)
            &&& dst == (if fits {
                old_dst + shown
            } else {
                old_dst
            })
        }
}

/// Whatever is shown at some volume is shown at every louder one.
pub proof fn louder_shows_more(typ: MsgTyp)
    ensures
        is_shown(PeerVolume::Mute, typ) ==> is_shown(PeerVolume::Quiet, typ),
        is_shown(PeerVolume::Quiet, typ) ==> is_shown(PeerVolume::Normal, typ),
        is_shown(PeerVolume::Normal, typ) ==> is_shown(PeerVolume::Loud, typ),
{
}

/// At the highest volume every message is shown, whatever its type and its content.
pub proof fn loud_shows_every_message(m: MessageView, trip: RoundtripView)
    ensures
        (seq![13u8] + m.shown() + seq![10u8]).is_prefix_of(
            rendered(PeerVolume::Loud, m, trip),
        ),
{
}

/// Once a peer is muted, nothing is shown of any message from whoever goes by a name of that peer,
/// and every message from the peer that is answered is rejected.
pub proof fn muted_is_silent(
    users: Map<Seq<u8>, AddrView>,
    peers: Map<AddrView, ConfigView>,
    addrs: Seq<AddrView>,
    m: MessageView,
    trip: RoundtripView,
    client: Seq<u8>,
)
    requires
        users.dom().contains(m.from),
        addrs.contains(users[m.from]),
    ensures
        ({
            let after = commands::with_volumes(peers, addrs, PeerVolume::Mute);
            let addr = users[m.from];
            let handling = peer::handling(Ok(m), client, addr, after[addr].vol is Mute);
            &&& rendered(volume_of_sender(users, after, m.from), m, trip) == Seq::<u8>::empty()
            &&& handling.show is None
            &&& handling.reply matches Some(a) ==> a.typ == MsgTyp::NACK(
                message::NACKKind::Blocked,
            )
        }),
{
    commands::volumes_are_set(peers, addrs, PeerVolume::Mute, users[m.from]);
}

/// The answer to a message that was built is timed: however long it took, it is not unknown.
pub proof fn answers_are_timed(
    before: MsgBuilder,
    after: MsgBuilder,
    typ: MsgTyp,
    to: Seq<u8>,
    content: Seq<u8>,
    m: MessageView,
    client: Seq<u8>,
    addr: AddrView,
    muted: bool,
    trip: RoundtripView,
)
    requires
        before.builds_now(after, typ, to, content, m),
    ensures
        peer::handling(Ok(m), client, addr, muted).reply matches Some(a) ==> (may_be(
            PeerVolume::Loud,
            a,
            after.pings(),
            trip,
        ) ==> !(trip is Unknown)),
{
}

/// The recipients that a message names are text, so that whoever receives the message can read
/// them.
pub proof fn published_is_text(term: TermView, audience: Seq<AddrView>)
    ensures
        vstd::utf8::valid_utf8(term.published(audience)),
{
    vstd::utf8::encode_utf8_valid_utf8(
        text::joined(commands::addr_texts(term.recipients(audience)), ","@),
    );
}

/// A broadcast names all its recipients, and a blind broadcast, which goes to the same, names none.
pub proof fn blind_broadcast_hides(term: TermView, audience: Seq<AddrView>)
    ensures
        ({
            let open = TermView { typ: MsgTyp::BC, ..term };
            let blind = TermView { typ: MsgTyp::BBC, ..term };
            &&& blind.recipients(audience) == open.recipients(audience)
            &&& open.published(audience) == commands::addr_bytes(open.recipients(audience))
            &&& blind.published(audience) == Seq::<u8>::empty()
        }),
{
}

/// Once a peer is blocked, broadcasts no longer go there. To whom else they go does not change.
pub proof fn blocked_hears_no_broadcast(
    term: TermView,
    peers: Map<AddrView, ConfigView>,
    connected: Seq<AddrView>,
    addrs: Seq<AddrView>,
    addr: AddrView,
)
    requires
        term.typ is BC || term.typ is BBC,
    ensures
        ({
            let after = commands::with_volumes(peers, addrs, PeerVolume::Mute);
            let old_list = term.recipients(peer::unblocked(peers, connected));
            let list = term.recipients(peer::unblocked(after, connected));
            list.contains(addr) <==> old_list.contains(addr) && !addrs.contains(addr)
        }),
{
    let after = commands::with_volumes(peers, addrs, PeerVolume::Mute);
    commands::volumes_are_set(peers, addrs, PeerVolume::Mute, addr);
    peer::blocked_are_left_out(peers, connected);
    peer::blocked_are_left_out(after, connected);
}

/// A command that fails changes nothing: neither the terminal nor the peers nor the builder, so
/// that no message number is used up.
pub proof fn failed_command_changes_nothing(
    plan: Plan,
    old_term: TermView,
    term: TermView,
    old_peers: Map<AddrView, ConfigView>,
    peers: Map<AddrView, ConfigView>,
    old_builder: MsgBuilder,
    builder: MsgBuilder,
    r: Result<Outcome, String>,
)
    requires
        carried_out(plan, old_term, term, old_peers, peers, old_builder, builder, r),
        r is Err,
    ensures
        term == old_term,
        peers == old_peers,
        builder == old_builder,
        plan is Fail,
{
}

/// Finds the end of the first line that ends at `from` or behind it.
fn find_newline(b: &[u8], from: usize) -> (r: Option<usize>)
    requires
        from <= b@.len(),
    ensures
        match r {
            Some(i) => first_newline(b@, from as int, i as int),
            None => forall|i: int| !first_newline(b@, from as int, i),
        },
{
    let mut i: usize = from;
    while i < b.len()
        invariant
            from <= i <= b@.len(),
            forall|j: int| from <= j < i ==> b@[j] != 10,
        decreases b@.len() - i,
    {
        if b[i] == 10 {
            return Some(i);
        }
        i += 1;
    }
    None
}

impl TerminalCodec {
    /// A terminal at which nothing has been typed. Messages are broadcast.
    pub fn new() -> (r: TerminalCodec)
        ensures
            r@ == (TermView {
                typ: MsgTyp::BC,
                to: Seq::empty(),
                idx: 0,
                msg: Seq::empty(),
            }),
    {
        let r = TerminalCodec {
            typ: MsgTyp::BC,
            to: Vec::new(),
            idx: 0,
            msg_buf: BytesMut::with_capacity(1024),
        };
        assert(commands::addr_views(r.to@) =~= Seq::empty());
        r
    }

    /// Finds the addresses that the words from `start` on stand for.
    pub fn parse_userlist(&self, user_map: &UserMap, userlist: &Vec<Word>, start: usize) -> (r:
        Result<Vec<Addr>, String>)
        requires
            start <= userlist@.len(),
        ensures
            commands::peers_result(r) == commands::peers_named(
                user_map@,
                commands::word_views(userlist@).skip(start as int),
            ),
    {
        let mut addrs: Vec<Addr> = Vec::new();
        let ghost all = commands::word_views(userlist@);
        let mut i: usize = start;
        assert(match commands::peers_named(user_map@, all.skip(i as int)) {
            Ok(rest) => commands::addr_views(addrs@) + rest =~= rest,
            Err(_) => true,
        });
        while i < userlist.len()
            invariant
                start <= i <= userlist@.len(),
                all == commands::word_views(userlist@),
                commands::peers_named(user_map@, all.skip(start as int)) == (
                match commands::peers_named(user_map@, all.skip(i as int)) {
                    Ok(rest) => Ok(commands::addr_views(addrs@) + rest),
                    Err(e) => Err(e),
                }),
            decreases userlist@.len() - i,
        {
            let word = &userlist[i];
            let name = Bytes::from(word.text.as_str().as_bytes());
            let ghost before = addrs@;
            assert(all.skip(i as int)[0] == word@);
            assert(all.skip(i as int).skip(1) =~= all.skip(i + 1));
            let found = match user_map.inner.get(&name) {
                Some(addr) => Some(addr.clone()),
                None => match &word.addr {
                    Some(addr) => Some(addr.clone()),
                    None => None,
                },
            };
            match found {
                Some(addr) => {
                    addrs.push(addr);
                    assert(commands::peer_named(user_map@, word@) == Some(addr@));
                    proof {
                        match commands::peers_named(user_map@, all.skip(i + 1)) {
                            Ok(rest) => {
                                assert(commands::addr_views(before) + (seq![addr@] + rest)
                                    =~= commands::addr_views(addrs@) + rest);
                            },
                            Err(_) => {},
                        }
                    }
                },
                None => {
                    let mut e = "Peer ".to_string();
                    e.append(word.text.as_str());
                    e.append(" cannot be parsed as a username or address");
                    return Err(e);
                },
            }
            i += 1;
        }
        assert(commands::addr_views(addrs@) + Seq::empty() =~= commands::addr_views(addrs@));
        Ok(addrs)
    }

    /// Carries out a command. The first word is its name, in whatever case, and `line` is the text
    /// that the words are of.
    pub fn parse_command<S>(
        &mut self,
        line: &str,
        words: &Vec<Word>,
        sock_map: &SockMap<S>,
        peer_map: &mut PeerMap,
        user_map: &UserMap,
        builder: &mut MsgBuilder,
    ) -> (r: Result<Outcome, String>)
        requires
            words@.len() > 0,
            message::frameable(old(builder).username().len(), 0, 0),
            commands::peers_named(user_map@, commands::word_views(words@).skip(1)) matches Ok(addrs)
                ==> message::frameable(
                old(builder).username().len(),
                commands::addr_bytes(addrs).len(),
                0,
            ),
        ensures
            carried_out(
                commands::plan(
                    commands::command_of(text::lowercase(words@[0].text@)),
                    line@,
                    commands::word_views(words@),
                    user_map@,
                    old(peer_map)@,
                    sock_map.connected_list(),
                ),
                old(self)@,
                final(self)@,
                old(peer_map)@,
                final(peer_map)@,
                *old(builder),
                *final(builder),
                r,
            ),
            text::plain_case(words@[0].text@),
            ({
                let command = commands::command_of(text::lowercase(words@[0].text@));
                &&& command is WhosHere || command is Quit ==> peer::once_each(
                    sock_map.connected_list(),
                    sock_map.connected(),
                )
                &&& (command is Msg || command is Volume) && words@.len() >= 2 ==> text::plain_case(
                    text::trimmed(words@[1].text@),
                )
            }),
    {
        let name = text::to_lowercase(words[0].text.as_str());
        let command = commands::command_named(name.as_str());
        self.run_command(command, line, words, sock_map, peer_map, user_map, builder)
    }

    /// Carries out a command that has been told by its name.
    pub fn run_command<S>(
        &mut self,
        command: Command,
        line: &str,
        words: &Vec<Word>,
        sock_map: &SockMap<S>,
        peer_map: &mut PeerMap,
        user_map: &UserMap,
        builder: &mut MsgBuilder,
    ) -> (r: Result<Outcome, String>)
        requires
            words@.len() > 0,
            command is Quit ==> message::frameable(old(builder).username().len(), 0, 0),
            command is Connect ==> (commands::peers_named(
                user_map@,
                commands::word_views(words@).skip(1),
            ) matches Ok(addrs) ==> message::frameable(
                old(builder).username().len(),
                commands::addr_bytes(addrs).len(),
                0,
            )),
        ensures
            carried_out(
                commands::plan(
                    command,
                    line@,
                    commands::word_views(words@),
                    user_map@,
                    old(peer_map)@,
                    sock_map.connected_list(),
                ),
                old(self)@,
                final(self)@,
                old(peer_map)@,
                final(peer_map)@,
                *old(builder),
                *final(builder),
                r,
            ),
            command is WhosHere || command is Quit ==> peer::once_each(
                sock_map.connected_list(),
                sock_map.connected(),
            ),
            (command is Msg || command is Volume) && words@.len() >= 2 ==> text::plain_case(
                text::trimmed(words@[1].text@),
            ),
    {
        match command {
            Command::Connect => match self.parse_userlist(user_map, words, 1) {
                Err(e) => Err(e),
                Ok(recipients) => {
                    let to = commands::into_bytes(&recipients);
                    let msg = builder.build(MsgTyp::Connect, to, Bytes::new());
                    Ok(Outcome::Send { msg, recipients })
                },
            },
            Command::Msg => {
                if words.len() < 2 {
                    return Err("Insufficient arguments".to_string());
                }
                let name = text::to_lowercase(text::trim(words[1].text.as_str()));
                match commands::typ_named(name.as_str()) {
                    None => {
                        let mut e = "Unknown message type ".to_string();
                        e.append(words[1].text.as_str());
                        Err(e)
                    },
                    Some(typ) => {
                        self.typ = typ;
                        Ok(Outcome::Done)
                    },
                }
            },
            Command::To => match self.parse_userlist(user_map, words, 1) {
                Err(e) => Err(e),
                Ok(to) => {
                    self.to = to;
                    Ok(Outcome::Done)
                },
            },
            Command::Volume => {
                if words.len() < 2 {
                    return Err("Insufficient arguments".to_string());
                }
                let name = text::to_lowercase(text::trim(words[1].text.as_str()));
                match commands::volume_named(name.as_str()) {
                    None => {
                        let mut e = "Unknown volume setting ".to_string();
                        e.append(words[1].text.as_str());
                        Err(e)
                    },
                    Some(vol) => match self.parse_userlist(user_map, words, 2) {
                        Err(e) => Err(e),
                        Ok(addrs) => {
                            commands::set_volumes(peer_map, &addrs, vol);
                            Ok(Outcome::Done)
                        },
                    },
                }
            },
            Command::WhosHere => {
                let connected = sock_map.inner.keys();
                assert(commands::addr_views(connected@) =~= sock_map.connected_list());
                Ok(Outcome::Show(commands::list_peers(peer_map, &connected)))
            },
            Command::Quit => {
                let recipients = sock_map.inner.keys();
                assert(commands::addr_views(recipients@) =~= sock_map.connected_list());
                let msg = builder.build(MsgTyp::Disconnect, Bytes::new(), Bytes::new());
                Ok(Outcome::Send { msg, recipients })
            },
            Command::Help => Ok(Outcome::Show(HELP.to_string())),
            Command::Unknown => {
                let rest = text::debug_remaining_words(line);
                Err(commands::unknown_command(rest.as_str()))
            },
        }
    }

    /// The recipients of the message that is being composed, and what it says of them.
    fn addressed<S>(&self, sock_map: &SockMap<S>, peer_map: &PeerMap) -> (r: (Vec<Addr>, Bytes))
        ensures
            commands::addr_views(r.0@) == self@.recipients(audience(*sock_map, *peer_map)),
            buffers::octets(r.1) == self@.published(audience(*sock_map, *peer_map)),
            self@.typ is BC || self@.typ is BBC ==> audience_is_complete(*sock_map, *peer_map),
    {
        let recipients = match self.typ {
            MsgTyp::BC | MsgTyp::BBC => {
                let connected = sock_map.inner.keys();
                assert(commands::addr_views(connected@) =~= sock_map.connected_list());
                proof {
                    peer::blocked_are_left_out(peer_map@, sock_map.connected_list());
                }
                commands::unblocked_peers(peer_map, &connected)
            },
            _ => commands::copy_addrs(&self.to),
        };
        let to = match self.typ {
            MsgTyp::BBC => Bytes::new(),
            _ => commands::into_bytes(&recipients),
        };
        (recipients, to)
    }

    /// Whether [`TerminalCodec::decode`] can read this input: it is at least as long as what has
    /// been searched, and a message with all of it can be framed.
    pub fn can_decode<S>(
        &self,
        buf: &BytesMut,
        sock_map: &SockMap<S>,
        peer_map: &PeerMap,
        builder: &MsgBuilder,
    ) -> (r: bool)
        ensures
            r == (self@.idx <= buffers::contents(*buf).len() && message::frameable(
                builder.username().len(),
                self@.published(audience(*sock_map, *peer_map)).len(),
                self@.msg.len() + buffers::contents(*buf).len() + 1,
            )),
    {
        let (_, to) = self.addressed(sock_map, peer_map);
        let total = 17u128 + builder.username_len() as u128 + to.len() as u128
            + self.msg_buf.len() as u128 + buf.len() as u128;
        self.idx <= buf.len() && total <= isize::MAX as u128
    }

    /// Reads what the user typed, up to the first thing that something has to be done about.
    #[verifier::rlimit(40)]
    pub fn decode<S>(
        &mut self,
        buf: &mut BytesMut,
        sock_map: &SockMap<S>,
        peer_map: &PeerMap,
        builder: &mut MsgBuilder,
    ) -> (r: Event)
        requires
            old(self)@.idx <= buffers::contents(*old(buf)).len(),
            message::frameable(
                old(builder).username().len(),
                old(self)@.published(audience(*sock_map, *peer_map)).len(),
                old(self)@.msg.len() + buffers::contents(*old(buf)).len() + 1,
            ),
        ensures
            ({
                let (reading, term, rest) = old(self)@.read(buffers::contents(*old(buf)));
                &&& final(self)@ == term
                &&& buffers::contents(*final(buf)) == rest
                &&& acted_on(
                    reading,
                    old(self)@,
                    audience(*sock_map, *peer_map),
                    *old(builder),
                    *final(builder),
                    r,
                )
            }),
            r is Transmit && (old(self)@.typ is BC || old(self)@.typ is BBC)
                ==> audience_is_complete(*sock_map, *peer_map),
            r matches Event::Transmit { msg, recipients, notice } ==> {
                let list = commands::addr_views(recipients@);
                let broadcast = old(self)@.typ == MsgTyp::BC || old(self)@.typ == MsgTyp::BBC;
                &&& msg@.typ == old(self)@.typ
                &&& msg@.from == old(builder).username()
                &&& msg@.msgnum == (old(builder).msgnum() + 1) % 256
                &&& !broadcast ==> list == old(self)@.to
                &&& broadcast ==> list.no_duplicates() && forall|a: AddrView|
                    list.contains(a) <==> sock_map.connected().contains(a) && !(
                    peer_map@.dom().contains(a) && peer_map@[a].vol == PeerVolume::Mute)
            },
            final(self)@.typ == old(self)@.typ,
            final(self)@.to == old(self)@.to,
            final(self)@.idx <= buffers::contents(*final(buf)).len(),
            final(self)@.msg.len() + buffers::contents(*final(buf)).len() <= old(self)@.msg.len()
                + buffers::contents(*old(buf)).len() + 1,
    {
        loop
            invariant
                self@.read(buffers::contents(*buf)) == old(self)@.read(
                    buffers::contents(*old(buf)),
                ),
                self@.typ == old(self)@.typ,
                self@.to == old(self)@.to,
                self@.idx <= buffers::contents(*buf).len(),
                self@.msg.len() + buffers::contents(*buf).len() <= old(self)@.msg.len()
                    + buffers::contents(*old(buf)).len(),
                *builder == *old(builder),
                message::frameable(
                    old(builder).username().len(),
                    old(self)@.published(audience(*sock_map, *peer_map)).len(),
                    old(self)@.msg.len() + buffers::contents(*old(buf)).len() + 1,
                ),
            decreases buffers::contents(*buf).len(),
        {
            let ghost b = buffers::contents(*buf);
            let end = match find_newline(buf, self.idx) {
                None => {
                    self.idx = buf.len();
                    return Event::NeedInput;
                },
                Some(end) => end,
            };
            assert(forall|k: int| first_newline(b, self@.idx as int, k) ==> k == end);
            let cut = end + 1;
            let line = buf.split_to(cut);
            self.idx = 0;
            match text::from_utf8(&line) {
                Ok(string) => {
                    let typed = text::trim(string);
                    proof {
                        text::trimmed_len(string@);
                        vstd::utf8::decode_utf8_encode_utf8(b.take(cut as int));
                    }
                    if typed.unicode_len() > 0 && typed.get_char(0) == '/' {
                        let words = text::split_words(typed);
                        proof {
                            text::some_words(typed@);
                            assert(text::texts(words@).len() == words@.len());
                        }
                        return Event::Command { line: typed.to_string(), words };
                    }
                    return self.compose(typed, sock_map, peer_map, builder);
                },
                Err(_) => {
                    self.msg_buf.extend_from_slice(&line);
                },
            }
        }
    }

    /// Adds a line to the message that is being composed, and builds the message if that ends it.
    fn compose<S>(
        &mut self,
        typed: &str,
        sock_map: &SockMap<S>,
        peer_map: &PeerMap,
        builder: &mut MsgBuilder,
    ) -> (r: Event)
        requires
            !(typed@.len() > 0 && typed@[0] == '/'),
            message::frameable(
                old(builder).username().len(),
                old(self)@.published(audience(*sock_map, *peer_map)).len(),
                old(self)@.msg.len() + vstd::utf8::encode_utf8(typed@).len() + 1,
            ),
        ensures
            final(self)@ == old(self)@.read_text(typed@).1,
            acted_on(
                old(self)@.read_text(typed@).0,
                old(self)@,
                audience(*sock_map, *peer_map),
                *old(builder),
                *final(builder),
                r,
            ),
            r is Transmit && (old(self)@.typ is BC || old(self)@.typ is BBC)
                ==> audience_is_complete(*sock_map, *peer_map),
    {
        let newline: [u8; 1] = [10u8];
        self.msg_buf.extend_from_slice(typed.as_bytes());
        self.msg_buf.extend_from_slice(&newline);
        let ghost msg = old(self)@.msg + vstd::utf8::encode_utf8(typed@) + seq![10u8];
        assert(buffers::contents(self.msg_buf) =~= msg);
        let len = self.msg_buf.len();
        let ended = {
            let bytes: &[u8] = &self.msg_buf;
            len >= 3 && bytes[len - 3] == 10 && bytes[len - 2] == 10 && bytes[len - 1] == 10
        };
        if !ended {
            return Event::Caret;
        }
        self.msg_buf.truncate(len - 3);
        let (recipients, to) = self.addressed(sock_map, peer_map);
        let content = {
            let bytes: &[u8] = &self.msg_buf;
            Bytes::from(bytes)
        };
        self.msg_buf.clear();
        let msg = builder.build(self.typ, to, content);
        let mut notice = "\rTransmitting ".to_string();
        notice.append(self.typ.to_string().as_str());
        notice.append("\n> ");
        Event::Transmit { msg, recipients, notice }
    }

    /// Writes, at the end of `dst`, a message as it is shown to the user, if its sender is loud
    /// enough for it. Says whether `dst` had room for that; if not, nothing is written.
    pub fn encode(
        &self,
        item: Message,
        dst: &mut BytesMut,
        peer_map: &PeerMap,
        user_map: &UserMap,
        builder: &MsgBuilder,
    ) -> (r: bool)
        ensures
            encoded(
                volume_of_sender(user_map@, peer_map@, item@.from),
                item@,
                builder.pings(),
                buffers::contents(*old(dst)),
                buffers::contents(*final(dst)),
                r,
            ),
    {
        let volume = sender_volume(user_map, peer_map, &item.from);
        let trip = match timed_since(volume, &item, builder) {
            None => Roundtrip::Unknown,
            Some(then) => roundtrip_of(clock::elapsed(then)),
        };
        let fits = put_shown(volume, &item, &trip, dst);
        assert(may_be(volume, item@, builder.pings(), trip@));
        fits
    }
}

} // verus!
