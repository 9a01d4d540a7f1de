//! Egress (destination) policy: which resolved destination addresses the proxy
//! refuses to relay to.

use vstd::prelude::*;

verus! {

/// An IP address as plain values: the four octets of an IPv4 address, or the
/// eight 16-bit segments of an IPv6 address (most significant first).
#[derive(Debug, Clone, Copy, PartialEq, Eq)]
pub enum IpAddress {
    /// An IPv4 address.
    V4([u8; 4]),
    /// An IPv6 address.
    V6([u16; 8]),
}

// ---------------------------------------------------------------------------
// Address classes (the `std::net` predicates that the policy reads)
// ---------------------------------------------------------------------------

/// `0.0.0.0`.
pub open spec fn v4_is_unspecified(o: Seq<u8>) -> bool {
    o[0] == 0 && o[1] == 0 && o[2] == 0 && o[3] == 0
}

/// `127.0.0.0/8`.
pub open spec fn v4_is_loopback(o: Seq<u8>) -> bool {
    o[0] == 127
}

/// `0.0.0.0/8`, "this network".
pub open spec fn v4_is_this_network(o: Seq<u8>) -> bool {
    o[0] == 0
}

/// `169.254.0.0/16`, including the cloud metadata address.
pub open spec fn v4_is_link_local(o: Seq<u8>) -> bool {
    o[0] == 169 && o[1] == 254
}

/// `10.0.0.0/8`, `172.16.0.0/12` and `192.168.0.0/16`.
pub open spec fn v4_is_private(o: Seq<u8>) -> bool {
    ||| o[0] == 10
    ||| o[0] == 172 && 16 <= o[1] <= 31
    ||| o[0] == 192 && o[1] == 168
}

/// `100.64.0.0/10`, carrier-grade NAT.
pub open spec fn v4_is_shared(o: Seq<u8>) -> bool {
    o[0] == 100 && (o[1] & 0xc0) == 64
}

/// `::`.
pub open spec fn v6_is_unspecified(s: Seq<u16>) -> bool {
    forall|i: int| 0 <= i < 8 ==> s[i] == 0
}

/// `::1`.
pub open spec fn v6_is_loopback(s: Seq<u16>) -> bool {
    &&& forall|i: int| 0 <= i < 7 ==> s[i] == 0
    &&& s[7] == 1
}

/// `fe80::/10`.
pub open spec fn v6_is_link_local(s: Seq<u16>) -> bool {
    (s[0] & 0xffc0) == 0xfe80
}

/// `fc00::/7`, unique local addresses.
pub open spec fn v6_is_unique_local(s: Seq<u16>) -> bool {
    (s[0] & 0xfe00) == 0xfc00
}

/// The IPv4 address carried in the last two segments.
pub open spec fn embedded_v4(s: Seq<u16>) -> Seq<u8> {
    seq![(s[6] / 256) as u8, (s[6] % 256) as u8, (s[7] / 256) as u8, (s[7] % 256) as u8]
}

/// `Ipv6Addr::to_ipv4`: the IPv4 address of an IPv4-compatible (`::a.b.c.d`)
/// or IPv4-mapped (`::ffff:a.b.c.d`) address, and `None` for any other.
pub open spec fn v6_to_ipv4(s: Seq<u16>) -> Option<Seq<u8>> {
    if (forall|i: int| 0 <= i < 5 ==> s[i] == 0) && (s[5] == 0 || s[5] == 0xffff) {
        Some(embedded_v4(s))
    } else {
        None
    }
}

/// The segments of the IPv4-mapped address `::ffff:a.b.c.d`.
pub open spec fn v4_mapped(o: Seq<u8>) -> Seq<u16> {
    seq![0, 0, 0, 0, 0, 0xffff, (o[0] * 256 + o[1]) as u16, (o[2] * 256 + o[3]) as u16]
}

/// The segments of the IPv4-compatible address `::a.b.c.d`.
pub open spec fn v4_compatible(o: Seq<u8>) -> Seq<u16> {
    seq![0, 0, 0, 0, 0, 0, (o[0] * 256 + o[1]) as u16, (o[2] * 256 + o[3]) as u16]
}

// ---------------------------------------------------------------------------
// The policy
// ---------------------------------------------------------------------------

/// Egress (destination) policy. Blocks SOCKS targets that resolve to
/// internal/metadata addresses, mitigating SSRF and open-relay abuse. Each
/// class can be individually disabled for trusted deployments (e.g. an internal
/// LAN proxy). Secure by default: all classes blocked.
#[derive(Debug, Clone, Copy, PartialEq, Eq, Structural)]
pub struct Egress {
    /// Block loopback (127.0.0.0/8, ::1).
    pub block_loopback: bool,
    /// Block link-local (169.254.0.0/16 incl. cloud metadata, fe80::/10).
    pub block_link_local: bool,
    /// Block private ranges (10/8, 172.16/12, 192.168/16, fc00::/7).
    pub block_private: bool,
}

/// Whether the policy blocks the IPv4 address with octets `o`.
pub open spec fn v4_blocked(e: Egress, o: Seq<u8>) -> bool {
    ||| v4_is_unspecified(o)
    ||| e.block_loopback && (v4_is_loopback(o) || v4_is_this_network(o))
    ||| e.block_link_local && v4_is_link_local(o)
    ||| e.block_private && (v4_is_private(o) || v4_is_shared(o))
}

/// Whether the policy blocks the IPv6 address with segments `s` by one of its
/// native IPv6 classes.
pub open spec fn v6_native_blocked(e: Egress, s: Seq<u16>) -> bool {
    ||| v6_is_unspecified(s)
    ||| e.block_loopback && v6_is_loopback(s)
    ||| e.block_link_local && v6_is_link_local(s)
    ||| e.block_private && v6_is_unique_local(s)
}

/// Whether the policy blocks the IPv6 address with segments `s`: by a native
/// class, or, for an IPv4-in-IPv6 address, by the IPv4 rules.
pub open spec fn v6_blocked(e: Egress, s: Seq<u16>) -> bool {
    ||| v6_native_blocked(e, s)
    ||| match v6_to_ipv4(s) {
        Some(o) => v4_blocked(e, o),
        None => false,
    }
}

/// Whether the policy blocks `ip`.
pub open spec fn blocked(e: Egress, ip: IpAddress) -> bool {
    match ip {
        IpAddress::V4(o) => v4_blocked(e, o@),
        IpAddress::V6(s) => v6_blocked(e, s@),
    }
}

/// The unspecified address, `0.0.0.0` or `::`.
pub open spec fn is_unspecified(ip: IpAddress) -> bool {
    match ip {
        IpAddress::V4(o) => v4_is_unspecified(o@),
        IpAddress::V6(s) => v6_is_unspecified(s@),
    }
}

impl Default for Egress {
    fn default() -> (r: Self)
        ensures
            r.block_loopback,
            r.block_link_local,
            r.block_private,
    {
        Self { block_loopback: true, block_link_local: true, block_private: true }
    }
}

impl Egress {
    /// A permissive policy that allows every destination (used by tests and by
    /// operators who explicitly opt out of egress filtering).
    pub fn permissive() -> (r: Self)
        ensures
            !r.block_loopback,
            !r.block_link_local,
            !r.block_private,
    {
        Self { block_loopback: false, block_link_local: false, block_private: false }
    }

    /// Whether the IPv4 address `o` is blocked by this policy.
    fn is_blocked_v4(&self, o: [u8; 4]) -> (r: bool)
        ensures
            r == v4_blocked(*self, o@),
    {
        (o[0] == 0 && o[1] == 0 && o[2] == 0 && o[3] == 0) || (self.block_loopback && (o[0] == 127
            || o[0] == 0)) || (self.block_link_local && o[0] == 169 && o[1] == 254) || (
        self.block_private && ((o[0] == 10 || (o[0] == 172 && 16 <= o[1] && o[1] <= 31) || (o[0]
            == 192 && o[1] == 168)) || (o[0] == 100 && (o[1] & 0xc0) == 64)))
    }

    /// Whether a resolved destination IP is blocked by this policy.
    ///
    /// The unspecified address (`0.0.0.0` / `::`) is always blocked. Native IPv6
    /// classes are evaluated first; any IPv4-in-IPv6 form (`::ffff:a.b.c.d`
    /// mapped or `::a.b.c.d` compatible) is then folded down to IPv4 so it cannot
    /// bypass the v4 rules. `block_loopback` also covers `0.0.0.0/8` ("this
    /// network", which several stacks route to localhost); `block_private` also
    /// covers CGNAT `100.64.0.0/10`.
    pub fn is_blocked(&self, ip: IpAddress) -> (r: bool)
        ensures
            r == blocked(*self, ip),
    {
        match ip {
            IpAddress::V6(s) => {
                let unspecified = s[0] == 0 && s[1] == 0 && s[2] == 0 && s[3] == 0 && s[4] == 0
                    && s[5] == 0 && s[6] == 0 && s[7] == 0;
                let loopback = s[0] == 0 && s[1] == 0 && s[2] == 0 && s[3] == 0 && s[4] == 0
                    && s[5] == 0 && s[6] == 0 && s[7] == 1;
                assert(unspecified == v6_is_unspecified(s@));
                assert(loopback == v6_is_loopback(s@));
                if unspecified || (self.block_loopback && loopback) || (self.block_link_local && (
                s[0] & 0xffc0) == 0xfe80) || (self.block_private && (s[0] & 0xfe00) == 0xfc00) {
                    return true;
                }
                if s[0] == 0 && s[1] == 0 && s[2] == 0 && s[3] == 0 && s[4] == 0 && (s[5] == 0
                    || s[5] == 0xffff) {
                    let v4: [u8; 4] = [
                        (s[6] / 256) as u8,
                        (s[6] % 256) as u8,
                        (s[7] / 256) as u8,
                        (s[7] % 256) as u8,
                    ];
                    assert(v6_to_ipv4(s@) == Some(embedded_v4(s@)));
                    assert(v4@ =~= embedded_v4(s@));
                    self.is_blocked_v4(v4)
                } else {
                    // A global/other IPv6 address: allowed.
                    assert(v6_to_ipv4(s@) is None);
                    false
                }
            },
            IpAddress::V4(o) => self.is_blocked_v4(o),
        }
    }
}

// ---------------------------------------------------------------------------
// Laws of the policy
// ---------------------------------------------------------------------------

/// The unspecified address (`0.0.0.0` / `::`) is blocked by every policy.
pub proof fn lemma_unspecified_always_blocked(e: Egress, ip: IpAddress)
    requires
        is_unspecified(ip),
    ensures
        blocked(e, ip),
{
}

/// An IPv4 address cannot bypass the IPv4 rules by being written in IPv6 form:
/// its IPv4-mapped (`::ffff:a.b.c.d`) and IPv4-compatible (`::a.b.c.d`) forms
/// are blocked exactly when the IPv4 address itself is.
pub proof fn lemma_ipv4_in_ipv6_same_verdict(e: Egress, o: [u8; 4])
    ensures
        v6_blocked(e, v4_mapped(o@)) == v4_blocked(e, o@),
        v6_blocked(e, v4_compatible(o@)) == v4_blocked(e, o@),
{
    let a = o@[0] as int;
    let b = o@[1] as int;
    let c = o@[2] as int;
    let d = o@[3] as int;
    assert((a * 256 + b) / 256 == a && (a * 256 + b) % 256 == b) by (nonlinear_arith)
        requires
            0 <= a < 256,
            0 <= b < 256,
    ;
    assert((c * 256 + d) / 256 == c && (c * 256 + d) % 256 == d) by (nonlinear_arith)
        requires
            0 <= c < 256,
            0 <= d < 256,
    ;
    assert(0 <= a * 256 + b < 0x10000) by (nonlinear_arith)
        requires
            0 <= a < 256,
            0 <= b < 256,
    ;
    assert(0 <= c * 256 + d < 0x10000) by (nonlinear_arith)
        requires
            0 <= c < 256,
            0 <= d < 256,
    ;
    let m = v4_mapped(o@);
    let k = v4_compatible(o@);
    assert(embedded_v4(m) =~= o@);
    assert(embedded_v4(k) =~= o@);
    assert(v6_to_ipv4(m) == Some(o@));
    assert(v6_to_ipv4(k) == Some(o@));
    assert((0u16 & 0xffc0) == 0 && (0u16 & 0xfe00) == 0) by (bit_vector);
    assert(m[0] == 0u16 && k[0] == 0u16);
    assert(!v6_is_unspecified(m) && !v6_is_loopback(m));
    if v6_is_unspecified(k) {
        assert(v4_is_unspecified(o@));
    }
    if v6_is_loopback(k) {
        assert(v4_is_this_network(o@));
    }
    if v4_is_unspecified(o@) {
        assert(v6_is_unspecified(k));
    }
}

/// Blocking more classes never unblocks an address: a policy that blocks at
/// least the classes of another blocks at least its addresses.
pub proof fn lemma_policy_monotone(weak: Egress, strong: Egress, ip: IpAddress)
    requires
        weak.block_loopback ==> strong.block_loopback,
        weak.block_link_local ==> strong.block_link_local,
        weak.block_private ==> strong.block_private,
        blocked(weak, ip),
    ensures
        blocked(strong, ip),
{
}

/// The permissive policy blocks only the unspecified address, whether written
/// as IPv4, as IPv6, or as an IPv4-in-IPv6 form of `0.0.0.0`.
pub proof fn lemma_permissive_blocks_only_unspecified(e: Egress, ip: IpAddress)
    requires
        !e.block_loopback,
        !e.block_link_local,
        !e.block_private,
    ensures
        blocked(e, ip) <==> match ip {
            IpAddress::V4(o) => v4_is_unspecified(o@),
            IpAddress::V6(s) => v6_is_unspecified(s@) || match v6_to_ipv4(s@) {
                Some(o) => v4_is_unspecified(o),
                None => false,
            },
        },
{
}

/// A policy that blocks every class blocks every internal destination:
/// loopback, "this network", link-local, private and CGNAT IPv4 addresses, and
/// loopback, link-local and unique-local IPv6 addresses.
pub proof fn lemma_full_policy_blocks_internal(e: Egress, ip: IpAddress)
    requires
        e.block_loopback,
        e.block_link_local,
        e.block_private,
        match ip {
            IpAddress::V4(o) => v4_is_loopback(o@) || v4_is_this_network(o@) || v4_is_link_local(
                o@,
            ) || v4_is_private(o@) || v4_is_shared(o@),
            IpAddress::V6(s) => v6_is_loopback(s@) || v6_is_link_local(s@) || v6_is_unique_local(
                s@,
            ),
        },
    ensures
        blocked(e, ip),
{
}

/// The verdict on an IPv4 address `a.b.c.d`, class by class, over the fixed
/// ranges: `0.0.0.0` always; `127.0.0.0/8` and `0.0.0.0/8` under
/// `block_loopback`; `169.254.0.0/16` under `block_link_local`; `10.0.0.0/8`,
/// `172.16.0.0/12`, `192.168.0.0/16` and `100.64.0.0/10` under
/// `block_private`; nothing else.
pub proof fn lemma_ipv4_verdict(e: Egress, o: [u8; 4])
    ensures
        blocked(e, IpAddress::V4(o)) <==> {
            let a = o@[0];
            let b = o@[1];
            let c = o@[2];
            let d = o@[3];
            ||| a == 0 && b == 0 && c == 0 && d == 0
            ||| e.block_loopback && (a == 127 || a == 0)
            ||| e.block_link_local && a == 169 && b == 254
            ||| e.block_private && (a == 10 || (a == 172 && 16 <= b <= 31) || (a == 192 && b
                == 168) || (a == 100 && 64 <= b <= 127))
        },
{
    let b = o@[1];
    assert(((b & 0xc0) == 64) <==> (64 <= b <= 127)) by (bit_vector);
}

/// An IPv4 address outside every internal range (`0.0.0.0/8`, `127.0.0.0/8`,
/// `169.254.0.0/16`, `10.0.0.0/8`, `172.16.0.0/12`, `192.168.0.0/16`,
/// `100.64.0.0/10`) is allowed by every policy.
pub proof fn lemma_public_ipv4_allowed(e: Egress, o: [u8; 4])
    requires
        o@[0] != 0,
        o@[0] != 127,
        !(o@[0] == 169 && o@[1] == 254),
        o@[0] != 10,
        !(o@[0] == 172 && 16 <= o@[1] <= 31),
        !(o@[0] == 192 && o@[1] == 168),
        !(o@[0] == 100 && 64 <= o@[1] <= 127),
    ensures
        !blocked(e, IpAddress::V4(o)),
{
    lemma_ipv4_verdict(e, o);
}

/// A private or CGNAT IPv4 address (`10.0.0.0/8`, `172.16.0.0/12`,
/// `192.168.0.0/16`, `100.64.0.0/10`) is blocked exactly when
/// `block_private` is set, whatever the other switches say.
pub proof fn lemma_private_ipv4_follows_its_switch(e: Egress, o: [u8; 4])
    requires
        o@[0] == 10 || (o@[0] == 172 && 16 <= o@[1] <= 31) || (o@[0] == 192 && o@[1] == 168) || (
        o@[0] == 100 && 64 <= o@[1] <= 127),
    ensures
        blocked(e, IpAddress::V4(o)) == e.block_private,
{
    lemma_ipv4_verdict(e, o);
}

/// A loopback (`127.0.0.0/8`) or "this network" (`0.0.0.0/8`, other than
/// `0.0.0.0`) IPv4 address is blocked exactly when `block_loopback` is set.
pub proof fn lemma_loopback_ipv4_follows_its_switch(e: Egress, o: [u8; 4])
    requires
        o@[0] == 127 || (o@[0] == 0 && !(o@[1] == 0 && o@[2] == 0 && o@[3] == 0)),
    ensures
        blocked(e, IpAddress::V4(o)) == e.block_loopback,
{
    lemma_ipv4_verdict(e, o);
}

/// A link-local IPv4 address (`169.254.0.0/16`) is blocked exactly when
/// `block_link_local` is set.
pub proof fn lemma_link_local_ipv4_follows_its_switch(e: Egress, o: [u8; 4])
    requires
        o@[0] == 169 && o@[1] == 254,
    ensures
        blocked(e, IpAddress::V4(o)) == e.block_link_local,
{
    lemma_ipv4_verdict(e, o);
}

/// An IPv6 address that does not carry an IPv4 address (not `::a.b.c.d` nor
/// `::ffff:a.b.c.d`) is blocked exactly when it is link-local (`fe80::/10`,
/// first segment `fe80`..`febf`) under `block_link_local`, or unique local
/// (`fc00::/7`, first segment `fc00`..`fdff`) under `block_private`.
pub proof fn lemma_native_ipv6_verdict(e: Egress, s: [u16; 8])
    requires
        !(s@[0] == 0 && s@[1] == 0 && s@[2] == 0 && s@[3] == 0 && s@[4] == 0 && (s@[5] == 0
            || s@[5] == 0xffff)),
    ensures
        blocked(e, IpAddress::V6(s)) <==> {
            ||| e.block_link_local && 0xfe80 <= s@[0] <= 0xfebf
            ||| e.block_private && 0xfc00 <= s@[0] <= 0xfdff
        },
{
    let x = s@[0];
    assert(((x & 0xffc0) == 0xfe80) <==> (0xfe80 <= x <= 0xfebf)) by (bit_vector);
    assert(((x & 0xfe00) == 0xfc00) <==> (0xfc00 <= x <= 0xfdff)) by (bit_vector);
    assert(!v6_is_unspecified(s@) && !v6_is_loopback(s@)) by {
        if v6_is_unspecified(s@) {
            assert(s@[5] == 0);
        }
        if v6_is_loopback(s@) {
            assert(s@[5] == 0);
        }
    }
}

/// An IPv6 address that carries the IPv4 address `a.b.c.d` (`::ffff:a.b.c.d`
/// or `::a.b.c.d`) gets the same verdict as `a.b.c.d` itself.
pub proof fn lemma_embedded_ipv6_verdict(e: Egress, s: [u16; 8], o: [u8; 4])
    requires
        s@[0] == 0 && s@[1] == 0 && s@[2] == 0 && s@[3] == 0 && s@[4] == 0,
        s@[5] == 0 || s@[5] == 0xffff,
        s@[6] == o@[0] * 256 + o@[1],
        s@[7] == o@[2] * 256 + o@[3],
    ensures
        blocked(e, IpAddress::V6(s)) == blocked(e, IpAddress::V4(o)),
{
    let a = o@[0] as int;
    let b = o@[1] as int;
    let c = o@[2] as int;
    let d = o@[3] as int;
    assert((a * 256 + b) / 256 == a && (a * 256 + b) % 256 == b) by (nonlinear_arith)
        requires
            0 <= a < 256,
            0 <= b < 256,
    ;
    assert((c * 256 + d) / 256 == c && (c * 256 + d) % 256 == d) by (nonlinear_arith)
        requires
            0 <= c < 256,
            0 <= d < 256,
    ;
    assert(embedded_v4(s@) =~= o@);
    assert(v6_to_ipv4(s@) == Some(o@));
    assert((0u16 & 0xffc0) == 0 && (0u16 & 0xfe00) == 0) by (bit_vector);
    assert(a * 256 + b == 0 ==> a == 0 && b == 0);
    assert(c * 256 + d == 0 ==> c == 0 && d == 0);
    assert(c * 256 + d == 1 ==> c == 0 && d == 1);
    if v6_is_loopback(s@) {
        assert(v4_is_this_network(o@));
    }
}

} // verus!
