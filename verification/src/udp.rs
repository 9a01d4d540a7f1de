//! UDP relay transport/addressing settings: the relay port range and the
//! host advertised in UDP ASSOCIATE replies.

use crate::dns::{dns_name_ok, is_valid_dns_name};
use crate::egress::IpAddress;
use crate::text::{
    chars_of, debug_quoted, decimal, is_digit, lemma_decimal_spells,
    lemma_parse_u16_of_decimal, lemma_trim_digits, lemma_trim_padded, is_whitespace, parse_u16, parse_u16_in, str_debug, trim,
    trim_bounds, u16_to_decimal,
};
use vstd::prelude::*;
use vstd::string::StringSliceAdditionalSpecFns;

verus! {

/// An inclusive UDP relay port range `[start, end]` for binding association
/// sockets. `start == end` is a single fixed port. Read from a `"start-end"`
/// string (e.g. `"40000-40100"`).
#[derive(Debug, Clone, Copy, PartialEq, Eq, Structural)]
pub struct PortRange {
    /// First port in the range (inclusive); must be >= 1.
    pub start: u16,
    /// Last port in the range (inclusive); must be >= `start`.
    pub end: u16,
}

impl PortRange {
    /// A usable range: `1 <= start <= end`.
    pub open spec fn wf(self) -> bool {
        1 <= self.start <= self.end
    }
}

/// `k` is the position of the first `c` in `s`.
pub open spec fn is_first_index(s: Seq<char>, c: char, k: int) -> bool {
    &&& 0 <= k < s.len()
    &&& s[k] == c
    &&& forall|j: int| 0 <= j < k ==> s[j] != c
}

/// `str::split_once(c)`: the parts before and after the first `c`, if any.
pub open spec fn split_once(s: Seq<char>, c: char) -> Option<(Seq<char>, Seq<char>)> {
    if exists|k: int| is_first_index(s, c, k) {
        let k = choose|k: int| is_first_index(s, c, k);
        Some((s.take(k), s.skip(k + 1)))
    } else {
        None
    }
}

/// The outcome of reading a port range from the text `s`: the range, or the
/// error message.
pub open spec fn port_range_from(s: Seq<char>) -> Result<PortRange, Seq<char>> {
    match split_once(s, '-') {
        None => Err("expected 'start-end', got "@ + str_debug(s)),
        Some((a, b)) => match parse_u16(trim(a)) {
            None => Err("invalid start port "@ + str_debug(a)),
            Some(start) => match parse_u16(trim(b)) {
                None => Err("invalid end port "@ + str_debug(b)),
                Some(end) => if start == 0 {
                    Err("start port must be >= 1"@)
                } else if start > end {
                    Err("start "@ + decimal(start as nat) + " must be <= end "@ + decimal(
                        end as nat,
                    ))
                } else {
                    Ok(PortRange { start, end })
                },
            },
        },
    }
}

/// `r` is the outcome `spec`, with an error message taken by its characters.
pub open spec fn outcome_is<T>(r: Result<T, String>, spec: Result<T, Seq<char>>) -> bool {
    match r {
        Ok(v) => spec == Ok::<T, Seq<char>>(v),
        Err(m) => spec == Err::<T, Seq<char>>(m@),
    }
}

proof fn lemma_first_index_unique(s: Seq<char>, c: char, k1: int, k2: int)
    requires
        is_first_index(s, c, k1),
        is_first_index(s, c, k2),
    ensures
        k1 == k2,
{
    if k1 < k2 {
        assert(s[k1] != c);
    } else if k2 < k1 {
        assert(s[k2] != c);
    }
}

impl PortRange {
    /// Parse an inclusive `"start-end"` range. Rejects a missing dash,
    /// non-numeric bounds, port 0 as `start`, and `start > end`.
    pub fn parse(s: &str) -> (r: Result<PortRange, String>)
        ensures
            outcome_is(r, port_range_from(s@)),
            r matches Ok(p) ==> p.wf(),
    {
        let cs = chars_of(s);
        let n = cs.len();
        let mut k: usize = 0;
        while k < n && cs[k] != '-'
            invariant
                k <= n == cs@.len(),
                cs@ == s@,
                forall|j: int| 0 <= j < k ==> cs@[j] != '-',
            decreases n - k,
        {
            k = k + 1;
        }
        if k == n {
            proof {
                assert(!exists|k: int| is_first_index(s@, '-', k));
            }
            let mut m = String::from_str("expected 'start-end', got ");
            let q = debug_quoted(s);
            m.append(q.as_str());
            return Err(m);
        }
        let ghost a = s@.take(k as int);
        let ghost b = s@.skip(k + 1);
        proof {
            assert(is_first_index(s@, '-', k as int));
            lemma_first_index_unique(s@, '-', k as int, choose|j: int| is_first_index(s@, '-', j));
            assert(split_once(s@, '-') == Some((a, b)));
            assert(cs@.subrange(0, k as int) =~= a);
            assert(cs@.subrange(k + 1, n as int) =~= b);
        }
        let (a_lo, a_hi) = trim_bounds(&cs, 0, k);
        let start = match parse_u16_in(&cs, a_lo, a_hi) {
            Some(v) => v,
            None => {
                let mut m = String::from_str("invalid start port ");
                let part = s.substring_char(0, k);
                let q = debug_quoted(part);
                m.append(q.as_str());
                return Err(m);
            },
        };
        let (b_lo, b_hi) = trim_bounds(&cs, k + 1, n);
        let end = match parse_u16_in(&cs, b_lo, b_hi) {
            Some(v) => v,
            None => {
                let mut m = String::from_str("invalid end port ");
                let part = s.substring_char(k + 1, n);
                assert(part@ =~= b);
                let q = debug_quoted(part);
                m.append(q.as_str());
                return Err(m);
            },
        };
        if start == 0 {
            return Err(String::from_str("start port must be >= 1"));
        }
        if start > end {
            let mut m = String::from_str("start ");
            let d1 = u16_to_decimal(start);
            m.append(d1.as_str());
            m.append(" must be <= end ");
            let d2 = u16_to_decimal(end);
            m.append(d2.as_str());
            return Err(m);
        }
        Ok(PortRange { start, end })
    }
}

/// Writing a usable range as `start-end` in decimal and reading it back gives
/// the same range.
pub proof fn lemma_port_range_round_trip(p: PortRange)
    requires
        p.wf(),
    ensures
        port_range_from(decimal(p.start as nat) + seq!['-'] + decimal(p.end as nat)) == Ok::<
            PortRange,
            Seq<char>,
        >(p),
{
    let a = decimal(p.start as nat);
    let b = decimal(p.end as nat);
    let s = a + seq!['-'] + b;
    lemma_decimal_spells(p.start as nat);
    lemma_decimal_spells(p.end as nat);
    let k = a.len() as int;
    assert(s[k] == '-');
    assert forall|j: int| 0 <= j < k implies s[j] != '-' by {
        assert(s[j] == a[j]);
        assert(is_digit(a[j]));
    }
    assert(is_first_index(s, '-', k));
    lemma_first_index_unique(s, '-', k, choose|j: int| is_first_index(s, '-', j));
    assert(s.take(k) =~= a);
    assert(s.skip(k + 1) =~= b);
    assert(split_once(s, '-') == Some((a, b)));
    lemma_trim_digits(a);
    lemma_trim_digits(b);
    lemma_parse_u16_of_decimal(p.start);
    lemma_parse_u16_of_decimal(p.end);
}

/// Whitespace runs of any length around either bound do not change the
/// range: `w1 start w2 - w3 end w4` reads as the range for whitespace-only
/// `w1`..`w4`.
pub proof fn lemma_port_range_ignores_whitespace(
    p: PortRange,
    w1: Seq<char>,
    w2: Seq<char>,
    w3: Seq<char>,
    w4: Seq<char>,
)
    requires
        p.wf(),
        forall|i: int| 0 <= i < w1.len() ==> is_whitespace(#[trigger] w1[i]),
        forall|i: int| 0 <= i < w2.len() ==> is_whitespace(#[trigger] w2[i]),
        forall|i: int| 0 <= i < w3.len() ==> is_whitespace(#[trigger] w3[i]),
        forall|i: int| 0 <= i < w4.len() ==> is_whitespace(#[trigger] w4[i]),
    ensures
        port_range_from(
            w1 + decimal(p.start as nat) + w2 + seq!['-'] + w3 + decimal(p.end as nat) + w4,
        ) == Ok::<PortRange, Seq<char>>(p),
{
    let da = decimal(p.start as nat);
    let db = decimal(p.end as nat);
    let a = w1 + da + w2;
    let b = w3 + db + w4;
    let s = w1 + da + w2 + seq!['-'] + w3 + db + w4;
    assert(s =~= a + seq!['-'] + b);
    lemma_decimal_spells(p.start as nat);
    lemma_decimal_spells(p.end as nat);
    assert(is_digit(da[0]) && is_digit(da.last()) && is_digit(db[0]) && is_digit(db.last()));
    let k = a.len() as int;
    assert(s[k] == '-');
    assert forall|j: int| 0 <= j < k implies s[j] != '-' by {
        assert(s[j] == a[j]);
        if j < w1.len() {
            assert(a[j] == w1[j]);
            assert(is_whitespace(w1[j]));
        } else if j < w1.len() + da.len() {
            assert(a[j] == da[j - w1.len()]);
            assert(is_digit(da[j - w1.len()]));
        } else {
            assert(a[j] == w2[j - w1.len() - da.len()]);
            assert(is_whitespace(w2[j - w1.len() - da.len()]));
        }
    }
    assert(is_first_index(s, '-', k));
    lemma_first_index_unique(s, '-', k, choose|j: int| is_first_index(s, '-', j));
    assert(s.take(k) =~= a);
    assert(s.skip(k + 1) =~= b);
    assert(split_once(s, '-') == Some((a, b)));
    lemma_trim_padded(w1, da, w2);
    lemma_trim_padded(w3, db, w4);
    lemma_parse_u16_of_decimal(p.start);
    lemma_parse_u16_of_decimal(p.end);
}

/// A client-reachable IP address or DNS name configured for UDP ASSOCIATE.
#[derive(Debug, Clone, PartialEq, Eq)]
pub enum AdvertiseHost {
    /// A literal IPv4 or IPv6 address.
    Ip(IpAddress),
    /// An ASCII DNS hostname resolved when an association is created.
    Domain(String),
}

/// The message for a malformed `[udp].advertise` value `s`.
pub open spec fn advertise_error(s: Seq<char>) -> Seq<char> {
    "invalid advertise address "@ + str_debug(s) + ": expected an IP, ip:port, or DNS name"@
}

/// Parse a `[udp].advertise` value. A port on an IP literal is accepted for
/// backward compatibility and discarded because the relay advertises its real
/// bound port.
///
/// Reading an IP address or a socket address from text is `std::net`'s work,
/// which the caller does: `as_ip` is what `s.parse::<IpAddr>()` gave, and
/// `as_socket_ip` the IP part of what `s.parse::<SocketAddr>()` gave.
pub fn parse_advertise_host(
    s: &str,
    as_ip: Option<IpAddress>,
    as_socket_ip: Option<IpAddress>,
) -> (r: Result<AdvertiseHost, String>)
    ensures
        match (as_ip, as_socket_ip) {
            (Some(ip), _) => r == Ok::<AdvertiseHost, String>(AdvertiseHost::Ip(ip)),
            (None, Some(ip)) => r == Ok::<AdvertiseHost, String>(AdvertiseHost::Ip(ip)),
            (None, None) => if dns_name_ok(s.spec_bytes()) {
                (r matches Ok(AdvertiseHost::Domain(d)) && d@ == s@)
            } else {
                (r matches Err(m) && m@ == advertise_error(s@))
            },
        },
{
    if let Some(ip) = as_ip {
        return Ok(AdvertiseHost::Ip(ip));
    }
    if let Some(ip) = as_socket_ip {
        return Ok(AdvertiseHost::Ip(ip));
    }
    if is_valid_dns_name(s) {
        return Ok(AdvertiseHost::Domain(String::from_str(s)));
    }
    let mut m = String::from_str("invalid advertise address ");
    let q = debug_quoted(s);
    m.append(q.as_str());
    m.append(": expected an IP, ip:port, or DNS name");
    Err(m)
}

/// UDP relay transport/addressing configuration.
#[derive(Debug, Clone, PartialEq, Eq)]
pub struct UdpConfig {
    /// Bind each association's relay socket inside this inclusive port range.
    /// `None` => OS-assigned ephemeral port.
    pub port_range: Option<PortRange>,
    /// Host advertised as BND.ADDR in UDP ASSOCIATE replies. Domain names are
    /// resolved for each new association so DDNS changes do not require a
    /// server restart. The advertised port is always the real bound port.
    pub advertise: Option<AdvertiseHost>,
}

impl Default for UdpConfig {
    fn default() -> (r: Self)
        ensures
            r.port_range is None,
            r.advertise is None,
    {
        UdpConfig { port_range: None, advertise: None }
    }
}

} // verus!
