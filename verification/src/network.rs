//! The addresses under which the development web server can be reached.

use vstd::prelude::*;
use crate::text::{decimal, decimal_string, push_char};

verus! {

broadcast use vstd::string::group_string_axioms;

/// The port the development web server listens on.
pub const SERVER_PORT: u16 = 4000;

/// An address of a network interface, as far as the server's URLs need it.
#[derive(PartialEq, Eq, Structural, Clone, Copy, Debug)]
pub enum InterfaceAddr {
    /// An IPv4 address, its four octets in order.
    V4(u8, u8, u8, u8),
    /// An IPv6 address; no URL is shown for it.
    V6,
}

/// The private IPv4 ranges of RFC 1918: 10.0.0.0/8, 172.16.0.0/12 and
/// 192.168.0.0/16.
pub open spec fn is_private_v4(a: u8, b: u8) -> bool {
    a == 10 || (a == 172 && 16 <= b <= 31) || (a == 192 && b == 168)
}

/// Private means exactly the ranges 10.0.0.0/8, 172.16.0.0/12 and
/// 192.168.0.0/16: the first octet is 10, 172 or 192, and for 172 the second
/// lies in 16..=31, for 192 it is 168.
pub proof fn lemma_private_ranges(a: u8, b: u8)
    ensures
        is_private_v4(a, b) <==> (a == 10 || (a == 172 && 16 <= b <= 31) || (a == 192 && b == 168)),
        is_private_v4(a, b) ==> a == 10 || a == 172 || a == 192,
{
}

/// Whether the IPv4 address `a.b.c.d` is private, as `Ipv4Addr::is_private`
/// decides it.
pub fn is_private_ipv4(a: u8, b: u8, c: u8, d: u8) -> (r: bool)
    ensures
        r == is_private_v4(a, b),
{
    a == 10 || (a == 172 && 16 <= b && b <= 31) || (a == 192 && b == 168)
}

/// The dotted-decimal text of the IPv4 address `a.b.c.d`.
pub open spec fn ipv4_text(a: u8, b: u8, c: u8, d: u8) -> Seq<char> {
    decimal(a as nat) + seq!['.'] + decimal(b as nat) + seq!['.'] + decimal(c as nat) + seq!['.']
        + decimal(d as nat)
}

/// Writes the IPv4 address `a.b.c.d` in dotted-decimal form.
pub fn ipv4_string(a: u8, b: u8, c: u8, d: u8) -> (r: String)
    ensures
        r@ == ipv4_text(a, b, c, d),
{
    let mut r = decimal_string(a as u32);
    push_char(&mut r, '.');
    let sb = decimal_string(b as u32);
    r.append(sb.as_str());
    push_char(&mut r, '.');
    let sc = decimal_string(c as u32);
    r.append(sc.as_str());
    push_char(&mut r, '.');
    let sd = decimal_string(d as u32);
    r.append(sd.as_str());
    assert(r@ =~= ipv4_text(a, b, c, d));
    r
}

/// The hosts of the private IPv4 addresses among `addrs`, in their order.
pub open spec fn private_hosts(addrs: Seq<InterfaceAddr>) -> Seq<Seq<char>>
    decreases addrs.len(),
{
    if addrs.len() == 0 {
        Seq::empty()
    } else {
        let rest = private_hosts(addrs.drop_last());
        match addrs.last() {
            InterfaceAddr::V4(a, b, c, d) => if is_private_v4(a, b) {
                rest.push(ipv4_text(a, b, c, d))
            } else {
                rest
            },
            InterfaceAddr::V6 => rest,
        }
    }
}

/// Every host shown is the text of a private IPv4 address of the machine.
pub proof fn lemma_shown_hosts_private(addrs: Seq<InterfaceAddr>)
    ensures
        forall|j: int|
            0 <= j < private_hosts(addrs).len() ==> exists|i: int, a: u8, b: u8, c: u8, d: u8|
                0 <= i < addrs.len() && addrs[i] == InterfaceAddr::V4(a, b, c, d) && is_private_v4(
                    a,
                    b,
                ) && #[trigger] private_hosts(addrs)[j] == ipv4_text(a, b, c, d),
    decreases addrs.len(),
{
    if addrs.len() > 0 {
        let rest = addrs.drop_last();
        lemma_shown_hosts_private(rest);
        assert forall|j: int| 0 <= j < private_hosts(addrs).len() implies exists|
            i: int,
            a: u8,
            b: u8,
            c: u8,
            d: u8,
        |
            0 <= i < addrs.len() && addrs[i] == InterfaceAddr::V4(a, b, c, d) && is_private_v4(a, b)
                && #[trigger] private_hosts(addrs)[j] == ipv4_text(a, b, c, d) by {
            if j < private_hosts(rest).len() {
                let (i, a, b, c, d) = choose|i: int, a: u8, b: u8, c: u8, d: u8|
                    0 <= i < rest.len() && rest[i] == InterfaceAddr::V4(a, b, c, d)
                        && is_private_v4(a, b) && #[trigger] private_hosts(rest)[j] == ipv4_text(
                        a,
                        b,
                        c,
                        d,
                    );
                assert(addrs[i] == rest[i]);
            } else {
                let i = addrs.len() - 1;
                match addrs[i] {
                    InterfaceAddr::V4(a, b, c, d) => {
                        assert(addrs[i] == InterfaceAddr::V4(a, b, c, d));
                    },
                    InterfaceAddr::V6 => {},
                }
            }
        }
    }
}

/// Every private IPv4 address among `addrs` is shown: its host is among the
/// shown hosts, and there are exactly as many shown hosts as private IPv4
/// addresses.
pub proof fn lemma_private_hosts_complete(addrs: Seq<InterfaceAddr>)
    ensures
        forall|i: int|
            0 <= i < addrs.len() ==> (#[trigger] addrs[i] matches InterfaceAddr::V4(a, b, c, d)
                ==> ((a == 10 || (a == 172 && 16 <= b <= 31) || (a == 192 && b == 168))
                ==> private_hosts(addrs).contains(ipv4_text(a, b, c, d)))),
        private_hosts(addrs).len() == private_v4_count(addrs),
    decreases addrs.len(),
{
    if addrs.len() > 0 {
        let rest = addrs.drop_last();
        lemma_private_hosts_complete(rest);
        assert forall|i: int|
            0 <= i < addrs.len() implies (#[trigger] addrs[i] matches InterfaceAddr::V4(a, b, c, d)
                ==> ((a == 10 || (a == 172 && 16 <= b <= 31) || (a == 192 && b == 168))
                ==> private_hosts(addrs).contains(ipv4_text(a, b, c, d)))) by {
            if let InterfaceAddr::V4(a, b, c, d) = addrs[i] {
            if a == 10 || (a == 172 && 16 <= b <= 31) || (a == 192 && b == 168) {
            if i < addrs.len() - 1 {
                assert(rest[i] == addrs[i]);
                let k = choose|k: int|
                    0 <= k < private_hosts(rest).len() && private_hosts(rest)[k] == ipv4_text(
                        a,
                        b,
                        c,
                        d,
                    );
                assert(private_hosts(addrs)[k] == private_hosts(rest)[k]);
            } else {
                let hs = private_hosts(addrs);
                assert(hs[hs.len() - 1] == ipv4_text(a, b, c, d));
            }
            }
            }
        }
    }
}

/// The hosts are shown in the order of the addresses: the hosts of two lists
/// of addresses one after the other are the hosts of the first list followed
/// by those of the second.
pub proof fn lemma_private_hosts_in_order(first: Seq<InterfaceAddr>, second: Seq<InterfaceAddr>)
    ensures
        private_hosts(first + second) == private_hosts(first) + private_hosts(second),
    decreases second.len(),
{
    if second.len() == 0 {
        assert(first + second =~= first);
        assert(private_hosts(first) + Seq::<Seq<char>>::empty() =~= private_hosts(first));
    } else {
        lemma_private_hosts_in_order(first, second.drop_last());
        assert((first + second).drop_last() =~= first + second.drop_last());
        assert((first + second).last() == second.last());
        let h1 = private_hosts(first);
        let h2 = private_hosts(second.drop_last());
        match second.last() {
            InterfaceAddr::V4(a, b, c, d) => {
                if is_private_v4(a, b) {
                    assert((h1 + h2).push(ipv4_text(a, b, c, d)) =~= h1 + h2.push(
                        ipv4_text(a, b, c, d),
                    ));
                }
            },
            InterfaceAddr::V6 => {},
        }
    }
}

/// How many of `addrs` are private IPv4 addresses, the ranges written out.
pub open spec fn private_v4_count(addrs: Seq<InterfaceAddr>) -> nat
    decreases addrs.len(),
{
    if addrs.len() == 0 {
        0
    } else {
        private_v4_count(addrs.drop_last()) + match addrs.last() {
            InterfaceAddr::V4(a, b, _, _) => if a == 10 || (a == 172 && 16 <= b <= 31) || (a == 192
                && b == 168) {
                1nat
            } else {
                0nat
            },
            InterfaceAddr::V6 => 0nat,
        }
    }
}

/// The line that shows the server's address on this machine.
pub open spec fn local_line(port: u16) -> Seq<char> {
    "  > Local:    http://"@ + "127.0.0.1"@ + seq![':'] + decimal(port as nat) + seq!['/']
}

/// The line that shows the server's address on the network `host`.
pub open spec fn network_line(host: Seq<char>, port: u16) -> Seq<char> {
    "  > Network:  http://"@ + host + seq![':'] + decimal(port as nat) + seq!['/']
}

fn url_tail(r: &mut String, port: u16)
    ensures
        final(r)@ == old(r)@ + seq![':'] + decimal(port as nat) + seq!['/'],
{
    push_char(r, ':');
    let p = decimal_string(port as u32);
    r.append(p.as_str());
    push_char(r, '/');
}

/// The line that shows the server's address on this machine.
pub fn local_url_line(port: u16) -> (r: String)
    ensures
        r@ == local_line(port),
{
    let mut r = "  > Local:    http://".to_string();
    r.append("127.0.0.1");
    url_tail(&mut r, port);
    assert(r@ =~= local_line(port));
    r
}

/// One line per private IPv4 address among `addrs`, in their order, showing
/// the server's address on that network.
pub fn network_url_lines(addrs: &Vec<InterfaceAddr>, port: u16) -> (r: Vec<String>)
    ensures
        r.deep_view() == private_hosts(addrs@).map_values(|h: Seq<char>| network_line(h, port)),
{
    let mut r: Vec<String> = Vec::new();
    let mut i: usize = 0;
    while i < addrs.len()
        invariant
            i <= addrs@.len(),
            r.deep_view() == private_hosts(addrs@.take(i as int)).map_values(
                |h: Seq<char>| network_line(h, port),
            ),
        decreases addrs.len() - i,
    {
        let ghost before = r.deep_view();
        proof {
            assert(addrs@.take(i + 1).drop_last() =~= addrs@.take(i as int));
            assert(addrs@.take(i + 1).last() == addrs@[i as int]);
        }
        match addrs[i] {
            InterfaceAddr::V4(a, b, c, d) => {
                if is_private_ipv4(a, b, c, d) {
                    let mut line = "  > Network:  http://".to_string();
                    let host = ipv4_string(a, b, c, d);
                    line.append(host.as_str());
                    url_tail(&mut line, port);
                    r.push(line);
                    assert(r.deep_view() =~= before.push(network_line(ipv4_text(a, b, c, d), port)));
                } else {
                    assert(r.deep_view() =~= before);
                }
            },
            InterfaceAddr::V6 => {
                assert(r.deep_view() =~= before);
            },
        }
        i = i + 1;
    }
    assert(addrs@.take(addrs.len() as int) =~= addrs@);
    r
}

} // verus!
