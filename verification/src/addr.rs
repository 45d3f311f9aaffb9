//! Socket addresses as plain values.

use crate::assoc::Key;
use crate::text;
use vstd::prelude::*;
use vstd::string::StringExecFns;

verus! {

/// The host part of a socket address.
#[derive(Clone, Copy, Debug, PartialEq, Eq, Structural)]
pub enum Host {
    /// The 32 bits of an IPv4 address.
    V4(u32),
    /// The 128 bits of an IPv6 address, its flow label and its scope.
    V6 { bits: u128, flowinfo: u32, scope_id: u32 },
}

/// A socket address, with the text that it is printed as.
#[derive(Debug)]
pub struct Addr {
    pub host: Host,
    pub port: u16,
    /// How the address is written, such as `127.0.0.1:6667`. [`Addr::v4`] writes IPv4 addresses;
    /// whoever makes an IPv6 address writes it.
    pub text: String,
}

/// What an [`Addr`] stands for.
pub struct AddrView {
    pub host: Host,
    pub port: u16,
    pub text: Seq<char>,
}

impl View for Addr {
    type V = AddrView;

    open spec fn view(&self) -> AddrView {
        AddrView { host: self.host, port: self.port, text: self.text@ }
    }
}

impl Clone for Addr {
    fn clone(&self) -> (r: Self)
        ensures
            r@ == self@,
    {
        Addr { host: self.host, port: self.port, text: self.text.clone() }
    }
}

/// One of the four parts of an IPv4 address, the first being the most significant.
pub open spec fn octet(bits: u32, i: int) -> nat {
    if i == 0 {
        bits as nat / 0x100_0000
    } else if i == 1 {
        bits as nat / 0x1_0000 % 0x100
    } else if i == 2 {
        bits as nat / 0x100 % 0x100
    } else {
        bits as nat % 0x100
    }
}

/// How an IPv4 address is written without a port: its four parts in decimal, with dots between
/// them.
pub open spec fn v4_host_text(bits: u32) -> Seq<char> {
    text::decimal(octet(bits, 0)) + "."@ + text::decimal(octet(bits, 1)) + "."@ + text::decimal(
        octet(bits, 2),
    ) + "."@ + text::decimal(octet(bits, 3))
}

/// How an IPv4 address is written: the host, a colon, and the port in decimal.
pub open spec fn v4_text(bits: u32, port: u16) -> Seq<char> {
    v4_host_text(bits) + ":"@ + text::decimal(port as nat)
}

/// The IPv4 address that is written so.
pub open spec fn read_v4(s: Seq<char>) -> AddrView {
    let halves = text::pieces(s, ':');
    let parts = text::pieces(halves[0], '.');
    let bits = text::number(parts[0]) * 0x100_0000 + text::number(parts[1]) * 0x1_0000
        + text::number(parts[2]) * 0x100 + text::number(parts[3]);
    AddrView { host: Host::V4(bits as u32), port: text::number(halves[1]) as u16, text: s }
}

impl AddrView {
    /// Whether this is an IPv4 address, written as such.
    pub open spec fn is_v4(self) -> bool {
        self.host matches Host::V4(bits) && self.text == v4_text(bits, self.port)
    }
}

/// Digits are none of the characters that stand between numbers.
proof fn digits_are_apart(s: Seq<char>)
    requires
        text::all_digits(s),
    ensures
        !s.contains('.'),
        !s.contains(':'),
        !s.contains(','),
{
}

proof fn host_parts(bits: u32)
    ensures
        text::pieces(v4_host_text(bits), '.') == seq![
            text::decimal(octet(bits, 0)),
            text::decimal(octet(bits, 1)),
            text::decimal(octet(bits, 2)),
            text::decimal(octet(bits, 3)),
        ],
        !v4_host_text(bits).contains(':'),
        !v4_host_text(bits).contains(','),
{
    let (a, b) = (text::decimal(octet(bits, 0)), text::decimal(octet(bits, 1)));
    let (c, d) = (text::decimal(octet(bits, 2)), text::decimal(octet(bits, 3)));
    let list = seq![a, b, c, d];
    assert forall|i: int| 0 <= i < 4 implies text::all_digits(#[trigger] list[i])
        && !list[i].contains('.') by {
        text::decimal_reads_back(octet(bits, i));
        digits_are_apart(list[i]);
    }
    reveal_strlit(".");
    assert("."@ =~= seq!['.']);
    assert(text::all_digits(list[0]) && text::all_digits(list[1]));
    assert(text::all_digits(list[2]) && text::all_digits(list[3]));
    assert(list.drop_last() =~= seq![a, b, c]);
    assert(seq![a, b, c].drop_last() =~= seq![a, b]);
    assert(seq![a, b].drop_last() =~= seq![a]);
    reveal_with_fuel(text::joined, 4);
    assert(text::joined(list, seq!['.']) =~= v4_host_text(bits));
    text::pieces_of_joined(list, '.');
}

/// An IPv4 address can be read back from how it is written, and no comma stands in it.
pub proof fn v4_reads_back(addr: AddrView)
    requires
        addr.is_v4(),
    ensures
        read_v4(addr.text) == addr,
        addr.text.len() > 0,
        !addr.text.contains(','),
{
    let bits = addr.host->V4_0;
    let (host, port) = (v4_host_text(bits), text::decimal(addr.port as nat));
    let halves = seq![host, port];
    host_parts(bits);
    text::decimal_reads_back(addr.port as nat);
    digits_are_apart(port);
    reveal_strlit(":");
    assert(":"@ =~= seq![':']);
    assert(halves.drop_last() =~= seq![host]);
    reveal_with_fuel(text::joined, 2);
    assert(text::joined(halves, seq![':']) =~= addr.text);
    assert forall|i: int| 0 <= i < 2 implies !(#[trigger] halves[i]).contains(':') by {}
    text::pieces_of_joined(halves, ':');
    text::decimal_reads_back(octet(bits, 0));
    text::decimal_reads_back(octet(bits, 1));
    text::decimal_reads_back(octet(bits, 2));
    text::decimal_reads_back(octet(bits, 3));
    assert forall|i: int| 0 <= i < addr.text.len() implies addr.text[i] != ',' by {
        if i < host.len() {
            assert(addr.text[i] == host[i]);
            assert(host.contains(host[i]));
        } else if i > host.len() {
            assert(addr.text[i] == port[i - host.len() - 1]);
            assert(port.contains(port[i - host.len() - 1]));
        }
    }
}

/// Two IPv4 addresses are the same exactly if their hosts and ports are.
pub proof fn v4_is_host_and_port(a: AddrView, b: AddrView)
    requires
        a.is_v4(),
        b.is_v4(),
    ensures
        a == b <==> a.host == b.host && a.port == b.port,
        a == b <==> a.text == b.text,
{
    v4_reads_back(a);
    v4_reads_back(b);
}

impl Addr {
    /// The IPv4 address with these bits and this port.
    pub fn v4(bits: u32, port: u16) -> (r: Addr)
        ensures
            r@ == (AddrView { host: Host::V4(bits), port, text: v4_text(bits, port) }),
    {
        let mut text = text::to_decimal((bits / 0x100_0000) as u16);
        text.append(".");
        text.append(text::to_decimal((bits / 0x1_0000 % 0x100) as u16).as_str());
        text.append(".");
        text.append(text::to_decimal((bits / 0x100 % 0x100) as u16).as_str());
        text.append(".");
        text.append(text::to_decimal((bits % 0x100) as u16).as_str());
        text.append(":");
        text.append(text::to_decimal(port).as_str());
        Addr { host: Host::V4(bits), port, text }
    }
}

impl Key for Addr {
    type K = AddrView;

    open spec fn key(&self) -> AddrView {
        self@
    }

    fn same(&self, other: &Self) -> (r: bool) {
        self.host == other.host && self.port == other.port && self.text == other.text
    }

    fn copied(&self) -> (r: Self) {
        self.clone()
    }
}

} // verus!
