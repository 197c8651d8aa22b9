//! The end-to-end parser scenarios: one bare proxy line, one blocked proxy
//! line with an absent destination, one syslog-enveloped proxy line, and one
//! URL-filter decision line.

use proxylog::event::{IpValue, LogEntry, WebProxyOutcome, WebProxyRuleCategory};

fn entry(line: &str) -> LogEntry {
    LogEntry { message: line.to_string(), event_received: 0, origin: IpValue::V4(0) }
}

fn v4(a: u32, b: u32, c: u32, d: u32) -> IpValue {
    IpValue::V4((a << 24) | (b << 16) | (c << 8) | d)
}

fn utc_of_secs(secs: i64) -> String {
    chrono::DateTime::from_timestamp(secs, 0).expect("Must work").naive_utc().to_string()
}

#[test]
fn squid_test_log_from_file() {
    let log = "1613260836.628    287 172.17.0.1 TCP_TUNNEL_ABORTED/200 18353 CONNECT www.google.com:443 - HIER_DIRECT/142.250.184.4 -";
    match proxylog::squid::parse_log(entry(log)) {
        Ok(log) => {
            assert_eq!(log.event.source_ip, v4(172, 17, 0, 1));
            assert_eq!(log.event.destination_ip, v4(142, 250, 184, 4));
            assert_eq!(log.event.outcome, WebProxyOutcome::ALLOW);
            assert_eq!(log.event.http_code, 200);
            assert_eq!(log.event.domain, "www.google.com");
            assert_eq!(log.event.destination_port, 443);
            assert_eq!(log.event.in_bytes, 18353);
            assert_eq!(utc_of_secs(log.event_created), "2021-02-14 00:00:36");
        },
        Err(_) => {
            panic!("Cannot parse log")
        },
    }
}

#[test]
fn test_log_from_file_none() {
    let log = "1613260847.813      0 172.17.0.1 NONE/503 0 CONNECT https:443 - HIER_NONE/- -";
    match proxylog::squid::parse_log(entry(log)) {
        Ok(log) => {
            assert_eq!(log.event.source_ip, v4(172, 17, 0, 1));
            assert_eq!(log.event.destination_ip, v4(0, 0, 0, 0));
            assert_eq!(log.event.outcome, WebProxyOutcome::BLOCK);
            assert_eq!(log.event.http_code, 503);
            assert_eq!(log.event.domain, "");
            assert_eq!(log.event.destination_port, 443);
            assert_eq!(log.event.in_bytes, 0);
            assert_eq!(utc_of_secs(log.event_created), "2021-02-14 00:00:47");
        },
        Err(_) => {
            panic!("Cannot parse log")
        },
    }
}

#[test]
fn test_log_from_syslog() {
    let log = "<1>1 2020-09-25T16:23:25+02:00 OPNsense.localdomain (squid-1)[91300]: 1601051005.952  18459 192.168.4.100 TCP_TUNNEL/200 7323 CONNECT ap.lijit.com:443 - HIER_DIRECT/72.251.249.9 -";
    match proxylog::squid::parse_log(entry(log)) {
        Ok(log) => {
            assert_eq!(log.event.source_ip, v4(192, 168, 4, 100));
            assert_eq!(log.event.destination_ip, v4(72, 251, 249, 9));
            assert_eq!(log.event.outcome, WebProxyOutcome::ALLOW);
            assert_eq!(log.event.http_code, 200);
            assert_eq!(log.event.domain, "ap.lijit.com");
            assert_eq!(log.event.destination_port, 443);
            assert_eq!(log.event.in_bytes, 7323);
            assert_eq!(utc_of_secs(log.event_created), "2020-09-25 16:23:25");
        },
        Err(_) => {
            panic!("Cannot parse log")
        },
    }
}

#[test]
fn squidguard_test_log_from_file() {
    let log = "2021-02-14 00:02:33 [26] Request(default/porn/-) pornpage.com:443 172.17.0.1/172.17.0.1 - CONNECT REDIRECT";
    match proxylog::squidguard::parse_log(entry(log)) {
        Ok(log) => {
            assert_eq!(log.event.source_ip, v4(172, 17, 0, 1));
            assert_eq!(log.event.destination_ip, v4(0, 0, 0, 0));
            assert_eq!(log.event.outcome, WebProxyOutcome::BLOCK);
            assert_eq!(log.event.http_code, 503);
            assert_eq!(log.event.domain, "pornpage.com");
            assert_eq!(log.event.destination_port, 443);
            assert_eq!(log.event.in_bytes, 0);
            assert_eq!(utc_of_secs(log.event_created / 1000), "2021-02-14 00:02:33");
            assert_eq!(log.event.rule_category, Some(WebProxyRuleCategory::Pornography));
        },
        Err(_) => {
            panic!("Cannot parse log")
        },
    }
}
