//! Unit-level behavior: URL decomposition round trips, outcome boundaries,
//! the two failure kinds, the helper splitters, the category table and the
//! best-effort duration field.

use proxylog::event::{HttpMethod, IpValue, LogEntry, LogParsingError, WebProxyOutcome,
    WebProxyRuleCategory};

fn entry(line: &str) -> LogEntry {
    LogEntry { message: line.to_string(), event_received: 7, origin: IpValue::V4(9) }
}

#[test]
fn url_round_trip_full() {
    let (scheme, host, path, port) =
        proxylog::url::parse_url("https://host.example:8443/p/q?x=1").expect("Must work");
    assert_eq!(scheme, "https");
    assert_eq!(host, "host.example");
    assert_eq!(path, "/p/q?x=1");
    assert_eq!(port, 8443);
}

#[test]
fn url_round_trip_bare_host() {
    let (scheme, host, path, port) = proxylog::url::parse_url("host.example").expect("Must work");
    assert_eq!(scheme, "");
    assert_eq!(host, "host.example");
    assert_eq!(path, "/");
    assert_eq!(port, 0);
}

#[test]
fn url_default_ports() {
    let (_, _, _, port) = proxylog::url::parse_url("http://h/x").expect("Must work");
    assert_eq!(port, 80);
    let (_, _, _, port) = proxylog::url::parse_url("ftp://h").expect("Must work");
    assert_eq!(port, 21);
    // an explicit port token is used verbatim, 0 included
    let (_, _, _, port) = proxylog::url::parse_url("http://h:0/x").expect("Must work");
    assert_eq!(port, 0);
    assert!(proxylog::url::parse_url("http://h:eighty/x").is_err());
    assert!(proxylog::url::parse_url("http://h:70000/x").is_err());
}

#[test]
fn translate_ports() {
    assert_eq!(proxylog::url::translate_protocol_to_port("http"), 80);
    assert_eq!(proxylog::url::translate_protocol_to_port("https"), 443);
    assert_eq!(proxylog::url::translate_protocol_to_port("ftp"), 21);
    assert_eq!(proxylog::url::translate_protocol_to_port("gopher"), 0);
    assert_eq!(proxylog::url::translate_protocol_to_port(""), 0);
}

#[test]
fn outcome_boundaries() {
    assert_eq!(proxylog::squid::parse_outcome("TCP_TUNNEL", 200), WebProxyOutcome::ALLOW);
    assert_eq!(proxylog::squid::parse_outcome("TCP_TUNNEL", 299), WebProxyOutcome::ALLOW);
    assert_eq!(proxylog::squid::parse_outcome("TCP_TUNNEL", 300), WebProxyOutcome::BLOCK);
    assert_eq!(proxylog::squid::parse_outcome("TCP_TUNNEL", 199), WebProxyOutcome::BLOCK);
    assert_eq!(proxylog::squid::parse_outcome("NONE", 200), WebProxyOutcome::BLOCK);
    assert_eq!(proxylog::squidguard::parse_outcome("NONE"), WebProxyOutcome::BLOCK);
    assert_eq!(proxylog::squidguard::parse_outcome("TCP_HIT"), WebProxyOutcome::ALLOW);
}

#[test]
fn framed_line_without_process_name_is_mismatch() {
    let log = "<134>1 2020-01-01T00:00:00 host proc: 1613260836.628 287";
    match proxylog::squid::parse_log(entry(log)) {
        Err(LogParsingError::NoValidParser(l)) => assert_eq!(l.message, log),
        _ => panic!("must be a format mismatch"),
    }
}

#[test]
fn framed_line_without_delimiter_is_structural() {
    let log = "<1>1 squidling-x";
    match proxylog::squid::parse_log(entry(log)) {
        Err(LogParsingError::ParserError(l)) => assert_eq!(l.message, log),
        _ => panic!("must be a structural error"),
    }
}

#[test]
fn proxy_wrong_token_count_is_structural() {
    let nine = "1613260836.628 287 172.17.0.1 TCP_MISS/200 18353 CONNECT www.google.com:443 - HIER_DIRECT/1.2.3.4";
    assert!(matches!(
        proxylog::squid::parse_log(entry(nine)),
        Err(LogParsingError::ParserError(_))
    ));
    let eleven = "1613260836.628 287 172.17.0.1 TCP_MISS/200 18353 CONNECT www.google.com:443 - HIER_DIRECT/1.2.3.4 - extra";
    assert!(matches!(
        proxylog::squid::parse_log(entry(eleven)),
        Err(LogParsingError::ParserError(_))
    ));
}

#[test]
fn proxy_source_not_ip_is_mismatch() {
    let log = "1613260836.628 287 999.999.999.999 TCP_MISS/200 18353 CONNECT www.google.com:443 - HIER_DIRECT/1.2.3.4 -";
    assert!(matches!(
        proxylog::squid::parse_log(entry(log)),
        Err(LogParsingError::NoValidParser(_))
    ));
}

#[test]
fn proxy_bad_composites_are_structural() {
    let no_slash_status = "1613260836.628 287 172.17.0.1 TCPMISS200 18353 CONNECT www.google.com:443 - HIER_DIRECT/1.2.3.4 -";
    assert!(matches!(
        proxylog::squid::parse_log(entry(no_slash_status)),
        Err(LogParsingError::ParserError(_))
    ));
    let bad_status = "1613260836.628 287 172.17.0.1 TCP_MISS/abc 18353 CONNECT www.google.com:443 - HIER_DIRECT/1.2.3.4 -";
    assert!(matches!(
        proxylog::squid::parse_log(entry(bad_status)),
        Err(LogParsingError::ParserError(_))
    ));
    let bad_dest = "1613260836.628 287 172.17.0.1 TCP_MISS/200 18353 CONNECT www.google.com:443 - HIER_DIRECT/999.999.999.999 -";
    assert!(matches!(
        proxylog::squid::parse_log(entry(bad_dest)),
        Err(LogParsingError::ParserError(_))
    ));
}

#[test]
fn reparse_payload_gives_same_event() {
    let log = "<1>1 2020-09-25T16:23:25+02:00 OPNsense.localdomain (squid-1)[91300]: 1601051005.952  18459 192.168.4.100 TCP_TUNNEL/200 7323 CONNECT ap.lijit.com:443 alice HIER_DIRECT/72.251.249.9 text/html";
    let first = proxylog::squid::parse_log(entry(log)).expect("Must work");
    let second = proxylog::squid::parse_log(entry(&first.message)).expect("Must work");
    assert_eq!(second.message, first.message);
    assert_eq!(second.event_created, first.event_created);
    assert_eq!(second.network_duration, first.network_duration);
    assert_eq!(second.event.source_ip, first.event.source_ip);
    assert_eq!(second.event.destination_ip, first.event.destination_ip);
    assert_eq!(second.event.destination_port, first.event.destination_port);
    assert_eq!(second.event.domain, first.event.domain);
    assert_eq!(second.event.url, first.event.url);
    assert_eq!(second.event.http_code, first.event.http_code);
    assert_eq!(second.event.mime_type, first.event.mime_type);
    assert_eq!(second.event.in_bytes, first.event.in_bytes);
    assert_eq!(second.event.out_bytes, first.event.out_bytes);
    assert_eq!(second.event.user_name, first.event.user_name);
    assert_eq!(second.event.outcome, first.event.outcome);
    assert!(matches!(second.event.http_method, HttpMethod::CONNECT));
    assert!(matches!(first.event.http_method, HttpMethod::CONNECT));
}

#[test]
fn proxy_fields_kept_verbatim() {
    let log = "1613260836.628 287 172.17.0.1 TCP_TUNNEL/200 18353 CONNECT www.google.com:443 alice HIER_DIRECT/142.250.184.4 text/html";
    let out = proxylog::squid::parse_log(entry(log)).expect("Must work");
    assert_eq!(out.event.user_name, "alice");
    assert_eq!(out.event.mime_type, "text/html");
    assert_eq!(out.event.url, "/");
    assert_eq!(out.event.out_bytes, 0);
    assert_eq!(out.network_duration, Some(287));
    assert_eq!(out.event_received, 7);
    assert_eq!(out.origin, IpValue::V4(9));
    assert_eq!(out.message, log);
}

#[test]
fn proxy_duration_degrades_silently() {
    let log = "1613260836.628 fast 172.17.0.1 TCP_TUNNEL/200 18353 CONNECT www.google.com:443 - HIER_DIRECT/142.250.184.4 -";
    let out = proxylog::squid::parse_log(entry(log)).expect("Must work");
    assert_eq!(out.network_duration, None);
}

#[test]
fn filter_marker_absent_is_mismatch() {
    let log = "2021-02-14 00:02:33 [26] Reply(default/porn/-) pornpage.com:443 172.17.0.1/172.17.0.1 - CONNECT REDIRECT";
    assert!(matches!(
        proxylog::squidguard::parse_log(entry(log)),
        Err(LogParsingError::NoValidParser(_))
    ));
}

#[test]
fn filter_too_few_body_tokens_is_structural() {
    let log = "2021-02-14 00:02:33 [26] Request(default/porn/-) pornpage.com:443 172.17.0.1/172.17.0.1";
    assert!(matches!(
        proxylog::squidguard::parse_log(entry(log)),
        Err(LogParsingError::ParserError(_))
    ));
}

#[test]
fn filter_bad_timestamp_is_structural() {
    let log = "2021-02-31x 00:02:33 [26] Request(default/porn/-) pornpage.com:443 172.17.0.1/172.17.0.1 - CONNECT REDIRECT";
    assert!(matches!(
        proxylog::squidguard::parse_log(entry(log)),
        Err(LogParsingError::ParserError(_))
    ));
}

#[test]
fn filter_bad_rule_tag_is_structural() {
    let log = "2021-02-14 00:02:33 [26] Request(defaultporn) pornpage.com:443 172.17.0.1/172.17.0.1 - CONNECT REDIRECT";
    assert!(matches!(
        proxylog::squidguard::parse_log(entry(log)),
        Err(LogParsingError::ParserError(_))
    ));
}

#[test]
fn filter_keeps_rule_name_and_user() {
    let log = "2021-02-14 00:02:33 [26] Request(default/hacking/-) http://hackpage.com/x 172.17.0.1/172.17.0.1 bob GET REDIRECT";
    let out = proxylog::squidguard::parse_log(entry(log)).expect("Must work");
    assert_eq!(out.event.rule_name.as_deref(), Some("hacking"));
    assert_eq!(out.event.rule_category, Some(WebProxyRuleCategory::Hacking));
    assert_eq!(out.event.user_name, "bob");
    assert_eq!(out.event.domain, "hackpage.com");
    assert_eq!(out.event.url, "/x");
    assert_eq!(out.event.destination_port, 80);
    assert!(matches!(out.event.http_method, HttpMethod::GET));
    assert_eq!(out.message, log);
    assert_eq!(out.network_duration, None);
}

#[test]
fn http_method_unknown_is_uppercased() {
    match proxylog::mapping::http_method("delete") {
        HttpMethod::UNKNOWN(s) => assert_eq!(s, "DELETE"),
        _ => panic!("must be unrecognized"),
    }
    assert!(matches!(proxylog::mapping::http_method("CONNECT"), HttpMethod::CONNECT));
    // the closed set matches case-sensitively
    assert!(matches!(proxylog::mapping::http_method("get"), HttpMethod::UNKNOWN(_)));
}

#[test]
fn protocol_unknown_kept_verbatim() {
    match proxylog::mapping::parse_protocol("Gopher") {
        proxylog::event::WebProtocol::UNKNOWN(s) => assert_eq!(s, "Gopher"),
        _ => panic!("must be unrecognized"),
    }
    assert!(matches!(proxylog::mapping::parse_protocol("wss"), proxylog::event::WebProtocol::WSS));
}

#[test]
fn squid_code_splits_on_first_slash() {
    let (code, status) = proxylog::squid::parse_squid_code("TCP_MISS/304").expect("Must work");
    assert_eq!(code, "TCP_MISS");
    assert_eq!(status, 304);
    assert!(proxylog::squid::parse_squid_code("TCPMISS304").is_err());
    assert!(proxylog::squid::parse_squid_code("TCP_MISS/x").is_err());
}

#[test]
fn destination_splits_on_first_slash() {
    let (hier, dest) = proxylog::squid::destination_ip_from_squid("HIER_DIRECT/142.250.184.4")
        .expect("Must work");
    assert_eq!(hier, "HIER_DIRECT");
    assert_eq!(dest, "142.250.184.4");
    assert!(proxylog::squid::destination_ip_from_squid("HIER_NONE").is_err());
}

#[test]
fn rule_tag_extraction() {
    let (ruleset, rule) = proxylog::squidguard::parse_rule("Request(default/porn/-)")
        .expect("Must work");
    assert_eq!(ruleset, "default");
    assert_eq!(rule, "porn");
    assert!(proxylog::squidguard::parse_rule("Request default").is_err());
    assert!(proxylog::squidguard::parse_rule("Request(default)").is_err());
    assert!(proxylog::squidguard::parse_rule("Request(default/porn)").is_err());
}

#[test]
fn rule_category_families_and_table() {
    assert_eq!(
        proxylog::squidguard::rule_category("classic-automobile-fans"),
        WebProxyRuleCategory::Vehicles
    );
    assert_eq!(
        proxylog::squidguard::rule_category("myfinancetips"),
        WebProxyRuleCategory::Finance
    );
    assert_eq!(
        proxylog::squidguard::rule_category("hobby"),
        WebProxyRuleCategory::PersonalSites
    );
    assert_eq!(proxylog::squidguard::rule_category("adv"), WebProxyRuleCategory::Spam);
    assert_eq!(proxylog::squidguard::rule_category("warez"), WebProxyRuleCategory::CopyrightConcerns);
    assert_eq!(proxylog::squidguard::rule_category("webtv"), WebProxyRuleCategory::VideoStreams);
    assert_eq!(
        proxylog::squidguard::rule_category("somethingelse"),
        WebProxyRuleCategory::Uncategorized
    );
}
