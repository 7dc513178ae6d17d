//! Textual forms of IP addresses and socket addresses: dotted decimal for
//! IPv4, and for IPv6 the canonical text of RFC 5952 (lowercase groups without
//! leading zeros, the first longest run of two or more zero groups written as
//! `::`, and IPv4-mapped addresses written `::ffff:a.b.c.d`).
use vstd::prelude::*;
use crate::text::{decimal, lower_hex, push_char, push_decimal, push_lower_hex, str_contains_char, str_starts_with_char};

verus! {

/// Dotted decimal text of four address bytes.
pub open spec fn ipv4_text(b: Seq<u8>) -> Seq<char> {
    decimal(b[0] as nat) + seq!['.'] + decimal(b[1] as nat) + seq!['.'] + decimal(b[2] as nat) + seq!['.']
        + decimal(b[3] as nat)
}

/// The eight 16-bit groups of sixteen address bytes, big-endian.
pub open spec fn ipv6_groups(b: Seq<u8>) -> Seq<u16> {
    Seq::new(8, |i: int| (b[2 * i] * 256 + b[2 * i + 1]) as u16)
}

/// The number of consecutive zero groups starting at index `i`.
pub open spec fn zero_run(g: Seq<u16>, i: int) -> nat
    decreases g.len() - i,
{
    if 0 <= i < g.len() && g[i] == 0 {
        1 + zero_run(g, i + 1)
    } else {
        0
    }
}

/// Index `i` starts the run of zero groups that the text compresses: the run
/// has at least two groups, is longer than every run that starts earlier and
/// no shorter than every run that starts later.
pub open spec fn is_compressed_run(g: Seq<u16>, i: int) -> bool {
    &&& 0 <= i < g.len()
    &&& zero_run(g, i) >= 2
    &&& forall|j: int| 0 <= j < i ==> #[trigger] zero_run(g, j) < zero_run(g, i)
    &&& forall|j: int| i < j < g.len() ==> #[trigger] zero_run(g, j) <= zero_run(g, i)
}

/// Groups in lowercase hexadecimal, separated by colons.
pub open spec fn join_groups(g: Seq<u16>) -> Seq<char>
    decreases g.len(),
{
    if g.len() == 0 {
        Seq::empty()
    } else if g.len() == 1 {
        lower_hex(g[0] as nat)
    } else {
        join_groups(g.drop_last()) + seq![':'] + lower_hex(g.last() as nat)
    }
}

/// The sixteen bytes are an IPv4-mapped address `::ffff:a.b.c.d`.
pub open spec fn is_ipv4_mapped(b: Seq<u8>) -> bool {
    &&& forall|i: int| 0 <= i < 10 ==> b[i] == 0
    &&& b[10] == 0xff
    &&& b[11] == 0xff
}

/// Canonical text of sixteen IPv6 address bytes.
pub open spec fn ipv6_text(b: Seq<u8>) -> Seq<char> {
    let g = ipv6_groups(b);
    if is_ipv4_mapped(b) {
        seq![':', ':', 'f', 'f', 'f', 'f', ':'] + ipv4_text(b.subrange(12, 16))
    } else if exists|i: int| is_compressed_run(g, i) {
        let i = choose|i: int| is_compressed_run(g, i);
        join_groups(g.subrange(0, i)) + seq![':', ':'] + join_groups(g.subrange(i + zero_run(g, i), 8))
    } else {
        join_groups(g)
    }
}

/// A host as written before `:port` in URLs and destinations: a host that
/// holds a colon (an IPv6 address) and is not already bracketed gets brackets.
pub open spec fn bracketed_host(h: Seq<char>) -> Seq<char> {
    if h.contains(':') && !(h.len() > 0 && h[0] == '[') {
        seq!['['] + h + seq![']']
    } else {
        h
    }
}

/// Appends a host, bracketed when it holds a colon and is not bracketed yet.
pub fn push_bracketed_host(s: &mut String, h: &str)
    ensures
        final(s)@ == old(s)@ + bracketed_host(h@),
{
    let bracket = str_contains_char(h, ':') && !str_starts_with_char(h, '[');
    if bracket {
        push_char(s, '[');
    }
    s.append(h);
    if bracket {
        push_char(s, ']');
    }
    assert(s@ =~= old(s)@ + bracketed_host(h@));
}

/// A listening socket address, as `std::net::SocketAddr` holds it.
pub enum SocketAddress {
    V4 { ip4: [u8; 4], port: u16 },
    V6 { ip6: [u8; 16], port: u16, scope_id: u32 },
}

/// Text of the address part (as `IpAddr`'s `Display` writes it).
pub open spec fn socket_ip_text(a: SocketAddress) -> Seq<char> {
    match a {
        SocketAddress::V4 { ip4, .. } => ipv4_text(ip4@),
        SocketAddress::V6 { ip6, .. } => ipv6_text(ip6@),
    }
}

/// The port of a socket address.
pub open spec fn socket_port(a: SocketAddress) -> u16 {
    match a {
        SocketAddress::V4 { port, .. } => port,
        SocketAddress::V6 { port, .. } => port,
    }
}

/// Text of a socket address (as `SocketAddr`'s `Display` writes it):
/// `a.b.c.d:port`, `[v6]:port`, or `[v6%scope]:port` for a non-zero scope.
pub open spec fn socket_text(a: SocketAddress) -> Seq<char> {
    match a {
        SocketAddress::V4 { ip4, port } => ipv4_text(ip4@) + seq![':'] + decimal(port as nat),
        SocketAddress::V6 { ip6, port, scope_id } => if scope_id == 0 {
            seq!['['] + ipv6_text(ip6@) + seq![']', ':'] + decimal(port as nat)
        } else {
            seq!['['] + ipv6_text(ip6@) + seq!['%'] + decimal(scope_id as nat) + seq![']', ':'] + decimal(
                port as nat,
            )
        },
    }
}

/// Appends the dotted decimal text of an IPv4 address.
pub fn push_ipv4(s: &mut String, b: &[u8])
    requires
        b@.len() == 4,
    ensures
        final(s)@ == old(s)@ + ipv4_text(b@),
{
    push_decimal(s, b[0] as u32);
    push_char(s, '.');
    push_decimal(s, b[1] as u32);
    push_char(s, '.');
    push_decimal(s, b[2] as u32);
    push_char(s, '.');
    push_decimal(s, b[3] as u32);
    assert(s@ =~= old(s)@ + ipv4_text(b@));
}

/// Appends the groups `g[from..to]`, colon separated.
fn push_groups(s: &mut String, g: &[u16; 8], from: usize, to: usize)
    requires
        from <= to <= 8,
    ensures
        final(s)@ == old(s)@ + join_groups(g@.subrange(from as int, to as int)),
{
    let mut k = from;
    assert(g@.subrange(from as int, from as int) =~= Seq::<u16>::empty());
    while k < to
        invariant
            from <= k <= to <= 8,
            s@ == old(s)@ + join_groups(g@.subrange(from as int, k as int)),
        decreases to - k,
    {
        let ghost prev = s@;
        if k > from {
            push_char(s, ':');
        }
        push_lower_hex(s, g[k] as u32);
        let ghost next = g@.subrange(from as int, k + 1);
        assert(next.drop_last() =~= g@.subrange(from as int, k as int));
        if k == from {
            assert(next.len() == 1);
        }
        assert(s@ =~= old(s)@ + join_groups(next));
        k = k + 1;
    }
}

/// Two starts of a compressed run are the same index.
proof fn lemma_compressed_run_unique(g: Seq<u16>, i: int, k: int)
    requires
        is_compressed_run(g, i),
        is_compressed_run(g, k),
    ensures
        i == k,
{
    if i < k {
        assert(zero_run(g, i) < zero_run(g, k));
    } else if k < i {
        assert(zero_run(g, k) < zero_run(g, i));
    }
}

/// Appends the canonical text of an IPv6 address.
pub fn push_ipv6(s: &mut String, b: &[u8])
    requires
        b@.len() == 16,
    ensures
        final(s)@ == old(s)@ + ipv6_text(b@),
{
    let ghost bs = b@;
    let mut mapped = b[10] == 0xff && b[11] == 0xff;
    let mut i: usize = 0;
    while i < 10
        invariant
            i <= 10,
            bs == b@,
            b@.len() == 16,
            mapped == (bs[10] == 0xff && bs[11] == 0xff && forall|j: int| 0 <= j < i ==> bs[j] == 0),
        decreases 10 - i,
    {
        if b[i] != 0 {
            mapped = false;
        }
        i = i + 1;
    }
    if mapped {
        s.append("::ffff:");
        proof {
            reveal_strlit("::ffff:");
        }
        push_ipv4(s, &b[12..16]);
        assert(s@ =~= old(s)@ + ipv6_text(b@));
        return;
    }
    // The eight groups.

    let mut g: [u16; 8] = [0u16; 8];
    let mut k: usize = 0;
    while k < 8
        invariant
            k <= 8,
            b@.len() == 16,
            forall|j: int| 0 <= j < k ==> g@[j] == ipv6_groups(b@)[j],
        decreases 8 - k,
    {
        g[k] = (b[2 * k] as u16) * 256 + (b[2 * k + 1] as u16);
        k = k + 1;
    }
    let ghost gs = ipv6_groups(b@);
    assert(g@ =~= gs);
    // Length of the zero run starting at each index, filled from the right.
    let mut runs: [u8; 9] = [0u8; 9];
    let mut r: usize = 8;
    assert(zero_run(gs, 8) == 0);
    while r > 0
        invariant
            r <= 8,
            g@ == gs,
            gs.len() == 8,
            forall|j: int| r <= j <= 8 ==> runs@[j] == zero_run(gs, j),
            forall|j: int| r <= j <= 8 ==> zero_run(gs, j) <= 8 - j,
        decreases r,
    {
        r = r - 1;
        assert(runs@[r + 1] == zero_run(gs, r + 1) && zero_run(gs, r + 1) <= 8 - (r + 1));
        if g[r] == 0 {
            runs[r] = runs[r + 1] + 1;
        } else {
            runs[r] = 0;
        }
        assert(zero_run(gs, r as int) == if gs[r as int] == 0 { 1 + zero_run(gs, r + 1) } else { 0 });
    }
    // The first index with the longest run.
    let mut best: usize = 0;
    let mut best_len: u8 = runs[0];
    let mut j: usize = 1;
    while j < 8
        invariant
            1 <= j <= 8,
            best < j,
            g@ == gs,
            forall|t: int| 0 <= t <= 8 ==> runs@[t] == zero_run(gs, t),
            best_len == zero_run(gs, best as int),
            forall|t: int| 0 <= t < best ==> #[trigger] zero_run(gs, t) < best_len,
            forall|t: int| best < t < j ==> #[trigger] zero_run(gs, t) <= best_len,
        decreases 8 - j,
    {
        if runs[j] > best_len {
            best = j;
            best_len = runs[j];
        }
        j = j + 1;
    }
    if best_len >= 2 {
        proof {
            assert(is_compressed_run(gs, best as int));
            let c = choose|i: int| is_compressed_run(gs, i);
            lemma_compressed_run_unique(gs, c, best as int);
        }
        push_groups(s, &g, 0, best);
        push_char(s, ':');
        push_char(s, ':');
        let after: usize = best + best_len as usize;
        assert(zero_run(gs, best as int) <= 8 - best) by {
            lemma_zero_run_bound(gs, best as int);
        }
        push_groups(s, &g, after, 8);
        assert(s@ =~= old(s)@ + ipv6_text(b@));
    } else {
        proof {
            assert forall|i: int| !is_compressed_run(gs, i) by {
                if is_compressed_run(gs, i) {
                    if i < best {
                        assert(zero_run(gs, i) < best_len);
                    } else if i > best {
                        assert(zero_run(gs, i) <= best_len);
                    }
                }
            }
        }
        push_groups(s, &g, 0, 8);
        assert(g@.subrange(0, 8) =~= gs);
        assert(s@ =~= old(s)@ + ipv6_text(b@));
    }
}

/// A zero run never passes the end of the groups.
proof fn lemma_zero_run_bound(g: Seq<u16>, i: int)
    requires
        0 <= i <= g.len(),
    ensures
        zero_run(g, i) <= g.len() - i,
    decreases g.len() - i,
{
    if i < g.len() {
        lemma_zero_run_bound(g, i + 1);
    }
}

impl SocketAddress {
    /// The port.
    pub fn port(&self) -> (res: u16)
        ensures
            res == socket_port(*self),
    {
        match self {
            SocketAddress::V4 { port, .. } => *port,
            SocketAddress::V6 { port, .. } => *port,
        }
    }

    /// Text of the address part.
    pub fn ip_text(&self) -> (res: String)
        ensures
            res@ == socket_ip_text(*self),
    {
        let mut s = String::new();
        match self {
            SocketAddress::V4 { ip4, .. } => push_ipv4(&mut s, ip4),
            SocketAddress::V6 { ip6, .. } => push_ipv6(&mut s, ip6),
        }
        assert(s@ =~= socket_ip_text(*self));
        s
    }

    /// Text of the socket address.
    pub fn to_text(&self) -> (res: String)
        ensures
            res@ == socket_text(*self),
    {
        let mut s = String::new();
        match self {
            SocketAddress::V4 { ip4, port } => {
                push_ipv4(&mut s, ip4);
                push_char(&mut s, ':');
                push_decimal(&mut s, *port as u32);
            },
            SocketAddress::V6 { ip6, port, scope_id } => {
                push_char(&mut s, '[');
                push_ipv6(&mut s, ip6);
                if *scope_id != 0 {
                    push_char(&mut s, '%');
                    push_decimal(&mut s, *scope_id);
                }
                push_char(&mut s, ']');
                push_char(&mut s, ':');
                push_decimal(&mut s, *port as u32);
            },
        }
        assert(s@ =~= socket_text(*self));
        s
    }
}

} // verus!
