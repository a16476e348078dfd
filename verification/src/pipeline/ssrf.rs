//! Guardrails for untrusted media addresses.
//!
//! An address is accepted only over HTTPS, on an allowed port and on a media
//! host of the allowlist; local names and IP literals are refused. What a name
//! resolves to is checked again, address by address.

use crate::pipeline::errors::{DownloadError, Error};
use crate::text::{
    chars_of, decimal, digits_value, ends_with, is_digit, lemma_decimal_has_no_leading_zero,
    lemma_decimal_roundtrip, lemma_decimal_value, lemma_last_piece, lemma_split_parts, lower,
    lower_str, parse_unsigned, parse_unsigned_chars, same, split, split_str, str_ends_with,
    trim_end_char, trim_end_char_str, views,
};
use vstd::prelude::*;

verus! {

/// The parts of a parsed address that the rules read.
#[derive(Debug)]
pub struct UrlParts {
    pub scheme: String,
    pub host: Option<String>,
    pub port: Option<u16>,
}

/// The parts as text: scheme, host and the port or the scheme's own one.
pub open spec fn url_parts_view(p: UrlParts) -> (Seq<char>, Option<Seq<char>>, Option<u16>) {
    (
        p.scheme@,
        match p.host {
            Some(h) => Some(h@),
            None => None,
        },
        p.port,
    )
}

/// What the URL parser makes of a text: the parts, or the text of its error.
pub uninterp spec fn parsed_url(url: Seq<char>) -> Result<
    (Seq<char>, Option<Seq<char>>, Option<u16>),
    Seq<char>,
>;

/// `reqwest::Url::parse`, then `scheme`, `host_str` and
/// `port_or_known_default`; the result is named.
#[verifier::external_body]
fn parse_url(url: &str) -> (r: Result<UrlParts, String>)
    ensures
        match r {
            Ok(parts) => parsed_url(url@) == Ok::<
                (Seq<char>, Option<Seq<char>>, Option<u16>),
                Seq<char>,
            >(url_parts_view(parts)),
            Err(text) => parsed_url(url@) == Err::<
                (Seq<char>, Option<Seq<char>>, Option<u16>),
                Seq<char>,
            >(text@),
        },
{
    match reqwest::Url::parse(url) {
        Ok(parsed) => Ok(
            UrlParts {
                scheme: parsed.scheme().to_string(),
                host: parsed.host_str().map(|h| h.to_string()),
                port: parsed.port_or_known_default(),
            },
        ),
        Err(e) => Err(e.to_string()),
    }
}

/// One suffix of the local names.
pub open spec fn has_local_suffix(host: Seq<char>) -> bool {
    ||| ends_with(host, ".local"@)
    ||| ends_with(host, ".internal"@)
    ||| ends_with(host, ".arpa"@)
    ||| ends_with(host, ".corp"@)
    ||| ends_with(host, ".home"@)
    ||| ends_with(host, ".lan"@)
}

/// Names of this machine and its network.
pub open spec fn is_local_name(host: Seq<char>) -> bool {
    host == "localhost"@ || has_local_suffix(host)
}

/// A decimal octet without a leading zero or a sign.
pub open spec fn is_octet(s: Seq<char>) -> bool {
    &&& 1 <= s.len() <= 3
    &&& s[0] != '+'
    &&& s.len() > 1 ==> s[0] != '0'
    &&& parse_unsigned(s, 255) is Some
}

/// Four octets with dots between them. A host out of a parsed address writes
/// an IPv6 literal in brackets, so this is the only bare literal.
pub open spec fn is_ip_literal(host: Seq<char>) -> bool {
    let parts = split(host, '.');
    parts.len() == 4 && forall|i: int| 0 <= i < 4 ==> is_octet(#[trigger] parts[i])
}

/// The hosts that media is fetched from.
pub open spec fn is_media_host(host: Seq<char>) -> bool {
    ||| host == "pbs.twimg.com"@
    ||| host == "video.twimg.com"@
    ||| host == "api.vxtwitter.com"@
    ||| host == "abs.twimg.com"@
    ||| ends_with(host, ".twimg.com"@)
}

/// The ports that media is fetched from.
pub open spec fn is_media_port(port: u16) -> bool {
    port == 443 || port == 8443
}

/// Why the parts of an address are refused, or its port.
pub open spec fn check_parts(parts: (Seq<char>, Option<Seq<char>>, Option<u16>)) -> Result<
    u16,
    Seq<char>,
> {
    if parts.0 != "https"@ {
        Err("non-https url"@)
    } else {
        match parts.1 {
            None => Err("missing url host"@),
            Some(raw) => {
                let host = trim_end_char(raw, '.');
                let name = lower(host);
                let port = match parts.2 {
                    Some(p) => p,
                    None => 443u16,
                };
                if is_local_name(name) {
                    Err("local hostname rejected"@)
                } else if is_ip_literal(host) {
                    Err("ip literal rejected"@)
                } else if !is_media_host(name) {
                    Err("host not on allowlist"@)
                } else if !is_media_port(port) {
                    Err("port not allowed"@)
                } else {
                    Ok(port)
                }
            },
        }
    }
}

/// A refusal carries the reason and is a blocked download.
pub open spec fn is_blocked(e: Error, reason: Seq<char>) -> bool {
    e matches Error::DownloadFailed { source: DownloadError::SsrfBlocked(text) } && text@ == reason
}

fn validation_error(message: &str) -> (e: Error)
    ensures
        is_blocked(e, message@),
{
    Error::DownloadFailed { source: DownloadError::SsrfBlocked(message.to_owned()) }
}

/// The error for a name that resolves to a blocked address.
pub fn blocked_address_error() -> (e: Error)
    ensures
        is_blocked(e, "resolved to blocked ip"@),
{
    validation_error("resolved to blocked ip")
}

fn is_local_host(host: &str) -> (r: bool)
    ensures
        r == is_local_name(host@),
{
    same(host, "localhost") || str_ends_with(host, ".local") || str_ends_with(host, ".internal")
        || str_ends_with(host, ".arpa") || str_ends_with(host, ".corp") || str_ends_with(
        host,
        ".home",
    ) || str_ends_with(host, ".lan")
}

fn octet_text(s: &str) -> (r: bool)
    ensures
        r == is_octet(s@),
{
    let v = chars_of(s);
    if v.len() == 0 || v.len() > 3 || v[0] == '+' || (v.len() > 1 && v[0] == '0') {
        return false;
    }
    parse_unsigned_chars(&v, 255).is_some()
}

/// Whether a host is written as an IP address.
pub fn is_ip_host(host: &str) -> (r: bool)
    ensures
        r == is_ip_literal(host@),
{
    let parts = split_str(host, '.');
    let ghost all = views(parts@);
    if parts.len() != 4 {
        return false;
    }
    let mut i: usize = 0;
    while i < 4
        invariant
            i <= 4,
            parts@.len() == 4,
            all == views(parts@),
            all == split(host@, '.'),
            forall|j: int| 0 <= j < i ==> is_octet(#[trigger] all[j]),
        decreases 4 - i,
    {
        if !octet_text(parts[i].as_str()) {
            assert(!is_octet(all[i as int]));
            return false;
        }
        i = i + 1;
    }
    true
}

/// Whether media may be fetched from a host, given in lower case.
pub fn is_allowed_media_host(host_lower: &str) -> (r: bool)
    ensures
        r == is_media_host(host_lower@),
{
    same(host_lower, "pbs.twimg.com") || same(host_lower, "video.twimg.com") || same(
        host_lower,
        "api.vxtwitter.com",
    ) || same(host_lower, "abs.twimg.com") || str_ends_with(host_lower, ".twimg.com")
}

/// Check the parts of a parsed address; the port is handed back.
pub fn validate_url_parts(parts: &UrlParts) -> (r: Result<u16, Error>)
    ensures
        match check_parts(url_parts_view(*parts)) {
            Ok(port) => r == Ok::<u16, Error>(port),
            Err(reason) => r is Err && is_blocked(r->Err_0, reason),
        },
{
    if !same(parts.scheme.as_str(), "https") {
        return Err(validation_error("non-https url"));
    }
    let host = match &parts.host {
        None => {
            return Err(validation_error("missing url host"));
        },
        Some(raw) => trim_end_char_str(raw.as_str(), '.'),
    };
    let host_lower = lower_str(host.as_str());
    if is_local_host(host_lower.as_str()) {
        return Err(validation_error("local hostname rejected"));
    }
    if is_ip_host(host.as_str()) {
        return Err(validation_error("ip literal rejected"));
    }
    if !is_allowed_media_host(host_lower.as_str()) {
        return Err(validation_error("host not on allowlist"));
    }
    let port: u16 = match parts.port {
        Some(p) => p,
        None => 443,
    };
    if port != 443 && port != 8443 {
        return Err(validation_error("port not allowed"));
    }
    Ok(port)
}

/// Check an address before it is fetched; the port is handed back.
///
/// A text that does not parse is refused with the parser's own words.
pub fn validate_media_url(url: &str) -> (r: Result<u16, Error>)
    ensures
        match parsed_url(url@) {
            Err(text) => r is Err && is_blocked(r->Err_0, text),
            Ok(parts) => match check_parts(parts) {
                Ok(port) => r == Ok::<u16, Error>(port),
                Err(reason) => r is Err && is_blocked(r->Err_0, reason),
            },
        },
{
    match parse_url(url) {
        Err(text) => Err(validation_error(text.as_str())),
        Ok(parts) => validate_url_parts(&parts),
    }
}

/// Whatever passes is fetched over HTTPS from a media host, by name, on an
/// allowed port.
pub proof fn lemma_accepted_parts_are_safe(parts: (Seq<char>, Option<Seq<char>>, Option<u16>))
    requires
        check_parts(parts) is Ok,
    ensures
        parts.0 == "https"@,
        parts.1 is Some,
        is_media_host(lower(trim_end_char(parts.1->0, '.'))),
        !is_local_name(lower(trim_end_char(parts.1->0, '.'))),
        !is_ip_literal(trim_end_char(parts.1->0, '.')),
        is_media_port(check_parts(parts)->Ok_0),
{
}

// ---------------------------------------------------------------------------
// Resolved addresses
// ---------------------------------------------------------------------------
/// An IP address by its numbers.
#[derive(Debug, Clone, Copy, PartialEq, Eq, Structural)]
pub enum IpAddress {
    V4(u8, u8, u8, u8),
    V6 { s0: u16, s1: u16, s2: u16, s3: u16, s4: u16, s5: u16, s6: u16, s7: u16 },
}

/// 10/8, 172.16/12 and 192.168/16.
pub open spec fn v4_private(a: u8, b: u8) -> bool {
    a == 10 || (a == 172 && 16 <= b <= 31) || (a == 192 && b == 168)
}

/// The addresses that no media host may resolve to: private, loopback, link
/// local, multicast, unspecified and broadcast ones, and every IPv6 address
/// that stands for an IPv4 one.
pub open spec fn is_blocked_address(ip: IpAddress) -> bool {
    match ip {
        IpAddress::V4(a, b, c, d) => {
            ||| v4_private(a, b)
            ||| a == 127
            ||| (a == 169 && b == 254)
            ||| 224 <= a <= 239
            ||| (a == 0 && b == 0 && c == 0 && d == 0)
            ||| (a == 255 && b == 255 && c == 255 && d == 255)
        },
        IpAddress::V6 { s0, s1, s2, s3, s4, s5, s6, s7 } => {
            ||| (s0 == 0 && s1 == 0 && s2 == 0 && s3 == 0 && s4 == 0 && (s5 == 0 || s5 == 0xffff))
            ||| 0xfc00 <= s0 <= 0xfdff
            ||| 0xfe80 <= s0 <= 0xfebf
            ||| 0xff00 <= s0
        },
    }
}

/// Whether an address is blocked.
pub fn is_blocked_ip(ip: IpAddress) -> (r: bool)
    ensures
        r == is_blocked_address(ip),
{
    match ip {
        IpAddress::V4(a, b, c, d) => {
            let private = a == 10 || (a == 172 && 16 <= b && b <= 31) || (a == 192 && b == 168);
            private || a == 127 || (a == 169 && b == 254) || (224 <= a && a <= 239) || (a == 0 && b
                == 0 && c == 0 && d == 0) || (a == 255 && b == 255 && c == 255 && d == 255)
        },
        IpAddress::V6 { s0, s1, s2, s3, s4, s5, .. } => {
            let maps_v4 = s0 == 0 && s1 == 0 && s2 == 0 && s3 == 0 && s4 == 0 && (s5 == 0 || s5
                == 0xffff);
            maps_v4 || (0xfc00 <= s0 && s0 <= 0xfdff) || (0xfe80 <= s0 && s0 <= 0xfebf) || 0xff00
                <= s0
        },
    }
}

/// Check what a name resolved to: at least one address, and none blocked.
pub fn validate_resolved_addrs(addrs: &Vec<IpAddress>) -> (r: Result<(), Error>)
    ensures
        r is Ok <==> addrs@.len() > 0 && forall|i: int|
            0 <= i < addrs@.len() ==> !is_blocked_address(#[trigger] addrs@[i]),
        r matches Err(e) ==> (if addrs@.len() == 0 {
            is_blocked(e, "dns lookup returned no addresses"@)
        } else {
            is_blocked(e, "resolved to blocked ip"@)
        }),
{
    let mut i: usize = 0;
    while i < addrs.len()
        invariant
            i <= addrs@.len(),
            forall|j: int| 0 <= j < i ==> !is_blocked_address(#[trigger] addrs@[j]),
        decreases addrs@.len() - i,
    {
        if is_blocked_ip(addrs[i]) {
            assert(is_blocked_address(addrs@[i as int]));
            return Err(validation_error("resolved to blocked ip"));
        }
        i = i + 1;
    }
    if addrs.len() == 0 {
        return Err(validation_error("dns lookup returned no addresses"));
    }
    Ok(())
}

// ---------------------------------------------------------------------------
// Addresses as numbers
// ---------------------------------------------------------------------------
/// An IPv4 address as one number.
pub open spec fn v4_number(a: u8, b: u8, c: u8, d: u8) -> int {
    ((a * 256 + b) * 256 + c) * 256 + d
}

/// A number lies among the `size` numbers from a base address on.
pub open spec fn in_network(n: int, base: int, size: int) -> bool {
    base <= n < base + size
}

/// Exactly these IPv4 networks are blocked: 10/8, 127/8, 172.16/12, 192.168/16,
/// 169.254/16 and 224/4, besides the unspecified and the broadcast address.
pub proof fn lemma_blocked_v4_networks(a: u8, b: u8, c: u8, d: u8)
    ensures
        ({
            let n = v4_number(a, b, c, d);
            is_blocked_address(IpAddress::V4(a, b, c, d)) <==> {
                ||| in_network(n, v4_number(10, 0, 0, 0), 0x100_0000)
                ||| in_network(n, v4_number(127, 0, 0, 0), 0x100_0000)
                ||| in_network(n, v4_number(172, 16, 0, 0), 0x10_0000)
                ||| in_network(n, v4_number(192, 168, 0, 0), 0x1_0000)
                ||| in_network(n, v4_number(169, 254, 0, 0), 0x1_0000)
                ||| in_network(n, v4_number(224, 0, 0, 0), 0x1000_0000)
                ||| n == 0
                ||| n == 0xffff_ffff
            }
        }),
{
}

/// Exactly these IPv6 addresses are blocked: those that stand for an IPv4
/// address, fc00::/7, fe80::/10 and ff00::/8.
pub proof fn lemma_blocked_v6_networks(
    s0: u16,
    s1: u16,
    s2: u16,
    s3: u16,
    s4: u16,
    s5: u16,
    s6: u16,
    s7: u16,
)
    ensures
        is_blocked_address(IpAddress::V6 { s0, s1, s2, s3, s4, s5, s6, s7 }) <==> {
            ||| s0 + s1 + s2 + s3 + s4 == 0 && (s5 == 0 || s5 == 65_535)
            ||| s0 / 512 == 126
            ||| s0 / 64 == 1018
            ||| s0 / 256 == 255
        },
{
}

/// An address that passes ends, without dots at its end and whatever its case,
/// in one of two domains, and its port is one of two.
pub proof fn lemma_accepted_hosts_are_known(parts: (Seq<char>, Option<Seq<char>>, Option<u16>))
    requires
        check_parts(parts) is Ok,
    ensures
        parts.0 == seq!['h', 't', 't', 'p', 's'],
        parts.1 matches Some(host) && (ends_with(
            lower(trim_end_char(host, '.')),
            "twimg.com"@,
        ) || lower(trim_end_char(host, '.')) == "api.vxtwitter.com"@),
        check_parts(parts)->Ok_0 == 443 || check_parts(parts)->Ok_0 == 8443,
        parts.2 matches Some(port) ==> check_parts(parts) == Ok::<u16, Seq<char>>(port),
        parts.2 is None ==> check_parts(parts) == Ok::<u16, Seq<char>>(443),
{
    reveal_strlit("https");
    assert("https"@ =~= seq!['h', 't', 't', 'p', 's']);
    reveal_strlit("pbs.twimg.com");
    reveal_strlit("video.twimg.com");
    reveal_strlit("abs.twimg.com");
    reveal_strlit(".twimg.com");
    reveal_strlit("twimg.com");
    let name = lower(trim_end_char(parts.1->0, '.'));
    let t = "twimg.com"@;
    if name == "pbs.twimg.com"@ || name == "abs.twimg.com"@ || name == "video.twimg.com"@ {
        assert(name.skip(name.len() - 9) =~= t);
    } else if ends_with(name, ".twimg.com"@) {
        let tail = name.skip(name.len() - 10);
        assert(tail.skip(1) =~= t);
        assert(name.skip(name.len() - 9) =~= tail.skip(1));
    }
}

/// A number below 256 in decimal is an octet.
proof fn lemma_decimal_is_octet(n: u8)
    ensures
        is_octet(decimal(n as nat)),
        !decimal(n as nat).contains('.'),
        is_digit(decimal(n as nat).last()),
{
    let d = decimal(n as nat);
    lemma_decimal_value(n as nat);
    lemma_decimal_roundtrip(n as nat, 255);
    lemma_decimal_has_no_leading_zero(n as nat);
    assert(is_digit(d[0]));
    assert(d.len() <= 3) by {
        reveal_with_fuel(decimal, 3);
    }
    assert(is_digit(d[d.len() - 1]));
    assert forall|i: int| 0 <= i < d.len() implies d[i] != '.' by {
        assert(is_digit(d[i]));
    }
}

/// Four numbers with dots between them are an address and refused as one.
pub proof fn lemma_written_addresses_are_refused(a: u8, b: u8, c: u8, d: u8, port: Option<u16>)
    ensures
        ({
            let host = decimal(a as nat) + seq!['.'] + (decimal(b as nat) + seq!['.'] + (decimal(
                c as nat,
            ) + seq!['.'] + decimal(d as nat)));
            &&& is_ip_literal(host)
            &&& check_parts(("https"@, Some(host), port)) is Err
        }),
{
    lemma_decimal_is_octet(a);
    lemma_decimal_is_octet(b);
    lemma_decimal_is_octet(c);
    lemma_decimal_is_octet(d);
    lemma_decimal_value(d as nat);
    let (wa, wb, wc, wd) = (
        decimal(a as nat),
        decimal(b as nat),
        decimal(c as nat),
        decimal(d as nat),
    );
    let cd = wc + seq!['.'] + wd;
    let bcd = wb + seq!['.'] + cd;
    let host = wa + seq!['.'] + bcd;
    lemma_split_parts(wd, '.', wd);
    lemma_split_parts(wc, '.', wd);
    lemma_split_parts(wb, '.', cd);
    lemma_split_parts(wa, '.', bcd);
    assert(split(host, '.') =~= seq![wa, wb, wc, wd]);
    assert(host.last() == wd.last());
}

/// Names of the local network are refused, whatever stands before their last
/// part.
pub proof fn lemma_local_names_are_refused(name: Seq<char>)
    ensures
        is_local_name("localhost"@),
        is_local_name(name + ".local"@),
        is_local_name(name + ".internal"@),
        is_local_name(name + ".arpa"@),
        is_local_name(name + ".corp"@),
        is_local_name(name + ".home"@),
        is_local_name(name + ".lan"@),
        is_local_name(name) ==> !is_media_host(name),
{
    reveal_strlit("localhost");
    reveal_strlit(".local");
    reveal_strlit(".internal");
    reveal_strlit(".arpa");
    reveal_strlit(".corp");
    reveal_strlit(".home");
    reveal_strlit(".lan");
    reveal_strlit(".twimg.com");
    reveal_strlit("pbs.twimg.com");
    reveal_strlit("video.twimg.com");
    reveal_strlit("api.vxtwitter.com");
    reveal_strlit("abs.twimg.com");
    assert("localhost"@.len() == 9);
    assert(".local"@.len() == 6);
    assert(".internal"@.len() == 9);
    assert(".arpa"@.len() == 5);
    assert(".corp"@.len() == 5);
    assert(".home"@.len() == 5);
    assert(".lan"@.len() == 4);
    assert(".twimg.com"@.len() == 10);
    assert("pbs.twimg.com"@.len() == 13);
    assert("video.twimg.com"@.len() == 15);
    assert("api.vxtwitter.com"@.len() == 17);
    assert("abs.twimg.com"@.len() == 13);
    assert("localhost"@[0] != ".internal"@[0]);
    assert(".arpa"@[1] != ".corp"@[1]);
    assert(".arpa"@[1] != ".home"@[1]);
    assert(".corp"@[1] != ".home"@[1]);
    assert("pbs.twimg.com"@[0] != "abs.twimg.com"@[0]);
    assert((name + ".local"@).skip(name.len() as int) =~= ".local"@);
    assert((name + ".internal"@).skip(name.len() as int) =~= ".internal"@);
    assert((name + ".arpa"@).skip(name.len() as int) =~= ".arpa"@);
    assert((name + ".corp"@).skip(name.len() as int) =~= ".corp"@);
    assert((name + ".home"@).skip(name.len() as int) =~= ".home"@);
    assert((name + ".lan"@).skip(name.len() as int) =~= ".lan"@);
    if is_local_name(name) && is_media_host(name) {
        if ends_with(name, ".twimg.com"@) {
            assert(name.skip(name.len() - 10)[9] == ".twimg.com"@[9]);
        }
        assert("pbs.twimg.com"@[12] == 'm' && "abs.twimg.com"@[12] == 'm');
        assert("video.twimg.com"@[14] == 'm' && "api.vxtwitter.com"@[16] == 'm');
        assert(name.last() == 'm');
        if name == "localhost"@ {
            assert("localhost"@[8] == 't');
        }
        if ends_with(name, ".local"@) {
            assert(name.skip(name.len() - 6)[5] == ".local"@[5]);
        }
        if ends_with(name, ".internal"@) {
            assert(name.skip(name.len() - 9)[8] == ".internal"@[8]);
        }
        if ends_with(name, ".arpa"@) {
            assert(name.skip(name.len() - 5)[4] == ".arpa"@[4]);
        }
        if ends_with(name, ".corp"@) {
            assert(name.skip(name.len() - 5)[4] == ".corp"@[4]);
        }
        if ends_with(name, ".home"@) {
            assert(name.skip(name.len() - 5)[4] == ".home"@[4]);
        }
        if ends_with(name, ".lan"@) {
            assert(name.skip(name.len() - 4)[3] == ".lan"@[3]);
        }
    }
}

/// A refusal is told as one, with its reason.
pub proof fn lemma_refusals_carry_their_reason(e: Error, reason: Seq<char>, other: Seq<char>)
    requires
        is_blocked(e, reason),
    ensures
        e matches Error::DownloadFailed { source } && source is SsrfBlocked,
        e.is_text("download failed: "@ + ("ssrf blocked: "@ + reason)),
        is_blocked(e, other) ==> other == reason,
{
    let cause = "ssrf blocked: "@ + reason;
    assert(e->DownloadFailed_source.is_text(cause));
}

/// Media is fetched from every host below the media domain, and from no other
/// port than two.
pub proof fn lemma_media_hosts_are_accepted(name: Seq<char>, port: u16)
    requires
        lower(name) == name,
    ensures
        port == 443 || port == 8443 ==> check_parts(
            ("https"@, Some(name + ".twimg.com"@), Some(port)),
        ) == Ok::<u16, Seq<char>>(port),
        port != 443 && port != 8443 ==> check_parts(
            ("https"@, Some(name + ".twimg.com"@), Some(port)),
        ) is Err,
        check_parts(("https"@, Some(name + ".twimg.com"@), None)) == Ok::<u16, Seq<char>>(443),
{
    reveal_strlit(".twimg.com");
    reveal_strlit("com");
    let tail = ".twimg.com"@;
    let host = name + tail;
    assert(host.last() == 'm');
    assert(trim_end_char(host, '.') == host);
    assert(lower(host) =~= host) by {
        assert(lower(tail) =~= tail);
        assert forall|i: int| 0 <= i < host.len() implies lower(host)[i] == host[i] by {
            if i < name.len() {
                assert(lower(name)[i] == name[i]);
            } else {
                assert(lower(tail)[i - name.len()] == tail[i - name.len()]);
            }
        }
    }
    assert(host.skip(name.len() as int) =~= tail);
    assert(is_media_host(host));
    lemma_local_names_are_refused(host);
    let com = "com"@;
    assert(!com.contains('.'));
    assert(host =~= (name + tail.take(6)) + seq!['.'] + com);
    lemma_last_piece(name + tail.take(6), '.', com);
    if is_ip_literal(host) {
        assert(is_octet(split(host, '.')[3]));
        assert(digits_value(com) is None);
    }
}

} // verus!
