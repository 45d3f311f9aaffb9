//! What holds of what the user is shown.

use crate::addr::AddrView;
use crate::clock;
use crate::message::{MessageView, MsgTyp};
use crate::peer::{ConfigView, PeerVolume};
use crate::terminal;
use crate::terminal::RoundtripView;
use crate::text;
use std::time::SystemTime;
use vstd::prelude::*;
use vstd::utf8::encode_utf8;

verus! {

/// Whether a message carries something to read: it is anything but an answer.
pub open spec fn says_something(typ: MsgTyp) -> bool {
    match typ {
        MsgTyp::PM | MsgTyp::BC | MsgTyp::BBC | MsgTyp::Connect | MsgTyp::Disconnect => true,
        MsgTyp::ACK | MsgTyp::NACK(_) => false,
    }
}

/// A message is shown with its sender and what the sender did, and, unless it is an answer, with
/// its whole content. An answer is shown without.
pub proof fn message_is_shown_in_full(m: MessageView)
    ensures
        ({
            let s = m.shown();
            let head = seq![0x5bu8] + m.from + seq![0x20u8] + encode_utf8(m.typ.words());
            match m.typ {
                MsgTyp::PM | MsgTyp::BC | MsgTyp::BBC | MsgTyp::Connect | MsgTyp::Disconnect => {
                    &&& s == head + seq![0x5du8, 0x3au8, 0x20u8] + m.content
                    &&& s.skip(s.len() - m.content.len() - 2) == seq![0x3au8, 0x20u8] + m.content
                },
                MsgTyp::ACK | MsgTyp::NACK(_) => s == head + seq![0x5du8],
            }
        }),
{
    let s = m.shown();
    let head = seq![0x5bu8] + m.from + seq![0x20u8] + encode_utf8(m.typ.words());
    if says_something(m.typ) {
        assert(s =~= head + seq![0x5du8, 0x3au8, 0x20u8] + m.content);
        assert(s.skip(s.len() - m.content.len() - 2) =~= seq![0x3au8, 0x20u8] + m.content);
    } else {
        assert(s =~= head + seq![0x5du8]);
    }
}

/// Messages that differ in their content only are shown differently, at every volume at which they
/// are shown.
pub proof fn different_contents_are_shown(
    vol: PeerVolume,
    a: MessageView,
    b: MessageView,
    trip: RoundtripView,
    other_trip: RoundtripView,
)
    requires
        says_something(a.typ),
        a.typ == b.typ,
        a.from == b.from,
        a.content != b.content,
        terminal::rendered(vol, a, trip).len() > 0,
    ensures
        terminal::rendered(vol, a, trip) != terminal::rendered(vol, b, other_trip),
{
    volumes_decide(vol, a, trip);
    volumes_decide(vol, b, other_trip);
    let (x, y) = (terminal::rendered(vol, a, trip), terminal::rendered(vol, b, other_trip));
    let start = if vol is Loud {
        seq![13u8]
    } else {
        Seq::empty()
    };
    let head = start + (seq![0x5bu8] + a.from + seq![0x20u8] + encode_utf8(a.typ.words())
        + seq![0x5du8, 0x3au8, 0x20u8]);
    message_is_shown_in_full(a);
    message_is_shown_in_full(b);
    assert(x =~= head + a.content + seq![10u8]);
    assert(y =~= head + b.content + seq![10u8]);
    if x == y {
        let (i, j) = (head.len() as int, x.len() - 1);
        assert(x.subrange(i, j) =~= a.content);
        assert(y.subrange(i, j) =~= b.content);
    }
}

/// What is shown at each volume: every message when loud, with a return in front of it; all but
/// answers at the usual volume; only private messages when quiet; and nothing of who is muted.
/// Whatever is shown ends its line.
pub proof fn volumes_decide(vol: PeerVolume, m: MessageView, trip: RoundtripView)
    ensures
        ({
            let r = terminal::rendered(vol, m, trip);
            match vol {
                PeerVolume::Loud => {
                    let line = seq![13u8] + m.shown() + seq![10u8];
                    &&& line.is_prefix_of(r)
                    &&& says_something(m.typ) || m.content.len() == 0 ==> r == line
                },
                PeerVolume::Normal => r == if says_something(m.typ) {
                    m.shown() + seq![10u8]
                } else {
                    Seq::empty()
                },
                PeerVolume::Quiet => r == if m.typ == MsgTyp::PM {
                    m.shown() + seq![10u8]
                } else {
                    Seq::empty()
                },
                PeerVolume::Mute => r == Seq::<u8>::empty(),
            }
        }),
{
}

/// When loud, an answer that says what it answers is shown with the time that it took, or with why
/// that is not known.
pub proof fn answers_are_shown_with_their_time(m: MessageView, trip: RoundtripView)
    requires
        m.typ is ACK || m.typ is NACK,
        m.content.len() > 0,
    ensures
        terminal::rendered(PeerVolume::Loud, m, trip) == seq![13u8] + m.shown() + seq![10u8]
            + encode_utf8(
            match trip {
                RoundtripView::Unknown => "Unknown roundtrip msgtime for msgnum "@ + text::decimal(
                    m.content[0] as nat,
                ) + ", there is no ping_map entry for that message.\n"@,
                RoundtripView::Took(secs, nanos) => "Roundtrip time for msgnum "@ + text::decimal(
                    m.content[0] as nat,
                ) + " was "@ + clock::duration_text(secs, nanos) + ".\n"@,
                RoundtripView::Failed(e) => "Error computing roundtrip time for msgnum "@
                    + text::decimal(m.content[0] as nat) + ": Er: "@ + e + ".\n"@,
            },
        ),
{
}

/// Only loud answers that say what they answer are timed, all of them, and their time is unknown
/// exactly if no message with that number was built.
pub proof fn loud_answers_are_timed(
    vol: PeerVolume,
    m: MessageView,
    pings: Map<u8, SystemTime>,
    trip: RoundtripView,
)
    ensures
        terminal::is_timed(vol, m) <==> vol == PeerVolume::Loud && (m.typ is ACK || m.typ is NACK)
            && m.content.len() > 0,
        vol == PeerVolume::Loud && (m.typ is ACK || m.typ is NACK) && m.content.len() > 0
            && terminal::may_be(vol, m, pings, trip) ==> (trip is Unknown
            <==> !pings.dom().contains(m.content[0])),
{
}

/// What was written is what is shown, all of it or, where there is no room, nothing.
pub proof fn written_is_what_is_shown(
    vol: PeerVolume,
    m: MessageView,
    pings: Map<u8, SystemTime>,
    old_dst: Seq<u8>,
    dst: Seq<u8>,
    fits: bool,
)
    requires
        terminal::encoded(vol, m, pings, old_dst, dst, fits),
    ensures
        !fits ==> dst == old_dst,
        fits ==> dst.len() <= isize::MAX && old_dst.is_prefix_of(dst),
        fits && vol == PeerVolume::Mute ==> dst == old_dst,
        fits && says_something(m.typ) && vol == PeerVolume::Normal ==> dst == old_dst + m.shown()
            + seq![10u8],
        fits && m.typ == MsgTyp::PM && vol == PeerVolume::Quiet ==> dst == old_dst + m.shown()
            + seq![10u8],
        fits && vol == PeerVolume::Loud ==> (old_dst + seq![13u8] + m.shown()
            + seq![10u8]).is_prefix_of(dst),
        !fits && says_something(m.typ) ==> old_dst.len() + m.shown().len() + 2 > isize::MAX,
{
    let trip = choose|trip: RoundtripView|
        {
            let shown = #[trigger] terminal::rendered(vol, m, trip);
            &&& terminal::may_be(vol, m, pings, trip)
            &&& fits == (old_dst.len() + shown.len() <= isize::MAX)
            &&& dst == (if fits {
                old_dst + shown
            } else {
                old_dst
            })
        };
    let shown = terminal::rendered(vol, m, trip);
    volumes_decide(vol, m, trip);
    if fits {
        assert(dst == old_dst + shown);
        assert(old_dst + (m.shown() + seq![10u8]) =~= old_dst + m.shown() + seq![10u8]);
        assert(old_dst + Seq::<u8>::empty() =~= old_dst);
        let line = seq![13u8] + m.shown() + seq![10u8];
        assert(old_dst + seq![13u8] + m.shown() + seq![10u8] =~= old_dst + line);
    }
}

/// A message is shown as loud as the user has set the peer that goes by the name of its sender, and
/// at the usual volume where no known peer does.
pub proof fn volume_goes_by_the_name(
    users: Map<Seq<u8>, AddrView>,
    peers: Map<AddrView, ConfigView>,
    from: Seq<u8>,
)
    ensures
        ({
            let vol = terminal::volume_of_sender(users, peers, from);
            &&& users.dom().contains(from) && peers.dom().contains(users[from]) ==> vol
                == peers[users[from]].vol
            &&& users.dom().contains(from) && !peers.dom().contains(users[from]) ==> vol
                == PeerVolume::Normal
            &&& !users.dom().contains(from) ==> vol == PeerVolume::Normal
        }),
{
}

} // verus!
