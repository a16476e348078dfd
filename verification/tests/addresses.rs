//! Which addresses media is fetched from.

use azalea::pipeline::errors::{DownloadError, Error};
use azalea::pipeline::ssrf::{
    blocked_address_error, is_allowed_media_host, is_blocked_ip, is_ip_host, validate_media_url,
    validate_resolved_addrs, validate_url_parts, IpAddress, UrlParts,
};

fn refused(url: &str) -> String {
    match validate_media_url(url) {
        Ok(port) => panic!("`{url}` must be rejected, got port {port}"),
        Err(error) => error.message(),
    }
}

fn validate_media_url_with_resolved_ips(url: &str, ips: Vec<IpAddress>) -> Result<u16, Error> {
    let port = validate_media_url(url)?;
    validate_resolved_addrs(&ips)?;
    Ok(port)
}

fn v6(s: [u16; 8]) -> IpAddress {
    IpAddress::V6 {
        s0: s[0],
        s1: s[1],
        s2: s[2],
        s3: s[3],
        s4: s[4],
        s5: s[5],
        s6: s[6],
        s7: s[7],
    }
}

#[test]
fn rejects_denylist_urls_with_expected_reasons() {
    let cases = [
        ("http://pbs.twimg.com/media/test.mp4", "non-https url"),
        ("https://localhost/media/test.mp4", "local hostname rejected"),
        ("https://printer.local/media/test.mp4", "local hostname rejected"),
        ("https://127.0.0.1/media/test.mp4", "ip literal rejected"),
    ];

    for (url, reason) in cases {
        let message = refused(url);
        assert!(
            message.contains(reason),
            "expected reason `{reason}` for `{url}`, got `{message}`"
        );
    }
}

#[test]
fn rejects_disallowed_hosts_without_dns_lookup() {
    assert!(refused("https://example.com/media/test.mp4").contains("host not on allowlist"));
}

#[test]
fn rejects_unapproved_ports() {
    assert!(refused("https://pbs.twimg.com:444/media/test.mp4").contains("port not allowed"));
}

#[test]
fn accepts_allowed_urls_with_public_dns_results() {
    let cases = [
        "https://pbs.twimg.com/media/test.mp4",
        "https://video.twimg.com:8443/media/test.mp4",
        "https://foo.twimg.com/media/test.mp4",
    ];

    for url in cases {
        validate_media_url_with_resolved_ips(url, vec![IpAddress::V4(1, 1, 1, 1)])
            .expect("allowed host with public IP should pass");
    }
}

#[test]
fn rejects_rfc1918_dns_results_with_reason() {
    let err = validate_media_url_with_resolved_ips(
        "https://pbs.twimg.com/media/test.mp4",
        vec![IpAddress::V4(10, 0, 0, 1)],
    )
    .expect_err("rfc1918 dns result must be rejected");
    assert!(err.message().contains("resolved to blocked ip"));
}

#[test]
fn accepted_addresses_hand_back_their_port() {
    assert!(matches!(validate_media_url("https://pbs.twimg.com/a.jpg"), Ok(443)));
    assert!(matches!(validate_media_url("https://VIDEO.twimg.com:8443/a"), Ok(8443)));
    assert!(matches!(validate_media_url("https://pbs.twimg.com./a.jpg"), Ok(443)));
}

#[test]
fn unparsable_text_is_refused_with_the_parsers_words() {
    assert!(refused("not a url").contains("relative URL without a base"));
    assert!(refused("https://").contains("ssrf blocked"));
}

#[test]
fn parts_are_checked_in_order() {
    let parts = |scheme: &str, host: Option<&str>, port: Option<u16>| UrlParts {
        scheme: scheme.to_string(),
        host: host.map(|h| h.to_string()),
        port,
    };
    let reason = |p: UrlParts| match validate_url_parts(&p) {
        Ok(_) => String::new(),
        Err(e) => e.message(),
    };
    assert!(reason(parts("https", None, Some(443))).contains("missing url host"));
    assert!(reason(parts("ftp", None, None)).contains("non-https url"));
    assert!(reason(parts("https", Some("a.internal"), Some(443))).contains("local hostname"));
    assert!(reason(parts("https", Some("abs.twimg.com"), Some(80))).contains("port not allowed"));
    assert!(matches!(
        validate_url_parts(&parts("https", Some("api.vxtwitter.com"), None)),
        Ok(443)
    ));
}

#[test]
fn literals_and_hosts_are_told_apart() {
    assert!(is_ip_host("127.0.0.1"));
    assert!(!is_ip_host("127.0.0.01"));
    assert!(!is_ip_host("256.0.0.1"));
    assert!(!is_ip_host("1.2.3"));
    assert!(is_allowed_media_host("pbs.twimg.com"));
    assert!(is_allowed_media_host("x.twimg.com"));
    assert!(!is_allowed_media_host("twimg.com"));
    assert!(!is_allowed_media_host("eviltwimg.com"));
}

#[test]
fn blocked_ranges_are_exact() {
    for ip in [
        IpAddress::V4(10, 1, 2, 3),
        IpAddress::V4(172, 16, 0, 1),
        IpAddress::V4(172, 31, 255, 255),
        IpAddress::V4(192, 168, 1, 1),
        IpAddress::V4(127, 0, 0, 1),
        IpAddress::V4(169, 254, 1, 1),
        IpAddress::V4(224, 0, 0, 1),
        IpAddress::V4(239, 255, 255, 255),
        IpAddress::V4(0, 0, 0, 0),
        IpAddress::V4(255, 255, 255, 255),
        v6([0, 0, 0, 0, 0, 0, 0, 1]),
        v6([0, 0, 0, 0, 0, 0xffff, 0x0101, 0x0101]),
        v6([0xfc00, 0, 0, 0, 0, 0, 0, 1]),
        v6([0xfe80, 0, 0, 0, 0, 0, 0, 1]),
        v6([0xff02, 0, 0, 0, 0, 0, 0, 1]),
    ] {
        assert!(is_blocked_ip(ip), "{ip:?}");
    }
    for ip in [
        IpAddress::V4(1, 1, 1, 1),
        IpAddress::V4(172, 15, 0, 1),
        IpAddress::V4(172, 32, 0, 1),
        IpAddress::V4(192, 167, 0, 1),
        IpAddress::V4(223, 255, 255, 255),
        IpAddress::V4(240, 0, 0, 1),
        v6([0x2606, 0x4700, 0, 0, 0, 0, 0, 1]),
        v6([0xfec0, 0, 0, 0, 0, 0, 0, 1]),
    ] {
        assert!(!is_blocked_ip(ip), "{ip:?}");
    }
}

#[test]
fn a_name_without_addresses_is_refused() {
    let err = validate_resolved_addrs(&Vec::new()).expect_err("no address");
    assert!(err.message().contains("dns lookup returned no addresses"));
    assert!(matches!(
        blocked_address_error(),
        Error::DownloadFailed { source: DownloadError::SsrfBlocked(text) }
            if text == "resolved to blocked ip"
    ));
}
