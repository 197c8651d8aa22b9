//! The proxy-access parser: normalizes cache-proxy access-log lines, bare or
//! wrapped in a syslog envelope, into a [`WebProxyEvent`].

use crate::event::{
    IpValue, LogEntry, LogParsingError, ParseSpec, ParsedLog, ParsedV, WebProxyEvent,
    WebProxyEventV, WebProxyOutcome,
};
use crate::net::{ip_of, parse_ip};
use crate::text::{
    eq_str, find_char, find_char_from, find_sub, find_seq_from, lemma_find_char_from,
    lemma_find_seq_from, parse_seconds, parse_seconds_spec, parse_u32, parse_u32_spec, parse_u64,
    parse_u64_spec, tokenize, tokens_from, tokens_of,
};
use vstd::prelude::*;

pub use crate::mapping::http_method;
pub use crate::mapping::http_method_spec;
pub use crate::mapping::parse_protocol;
pub use crate::mapping::protocol_spec;
pub use crate::url::parse_url;
pub use crate::url::translate_protocol_to_port;
pub use crate::url::url_parts_spec;

verus! {

/// How the syslog-envelope detection of a line ends: not this vendor's
/// framing, framed but malformed, or the index where the payload starts.
pub enum HeaderSpec {
    Mismatch,
    Malformed,
    Payload(int),
}

/// Where the payload of a line starts. A line that does not begin with the
/// syslog framing marker `<` is taken whole. A framed line must name the
/// proxy process; the payload then starts after the following `": "`
/// delimiter. A framed line without the process name is not this parser's
/// format at all; one without the delimiter is malformed.
pub open spec fn header_spec(msg: Seq<char>) -> HeaderSpec {
    if msg.len() > 0 && msg[0] == '<' {
        match find_seq_from(msg, "squid"@, 0) {
            None => HeaderSpec::Mismatch,
            Some(sp) => match find_seq_from(msg, ": "@, sp) {
                None => HeaderSpec::Malformed,
                Some(p) => HeaderSpec::Payload(p + 2),
            },
        }
    } else {
        HeaderSpec::Payload(0)
    }
}

/// A composite token split at its first `/`.
pub open spec fn split_slash_spec(t: Seq<char>) -> Option<(Seq<char>, Seq<char>)> {
    match find_char_from(t, '/', 0) {
        None => None,
        Some(p) => Some((t.subrange(0, p), t.subrange(p + 1, t.len() as int))),
    }
}

/// True when `h` is one of the bare scheme names an artifact of malformed
/// request targets can leave in the host position.
pub open spec fn is_bare_scheme(h: Seq<char>) -> bool {
    h == "http"@ || h == "https"@ || h == "ftp"@ || h == "ws"@ || h == "wss"@
}

/// The decision: BLOCK when the HTTP status lies outside the inclusive
/// success range `[200,300)`, and inside it BLOCK exactly when the proxy
/// disposition is `NONE`; everything else is ALLOW.
pub open spec fn outcome_spec(disposition: Seq<char>, http_code: u32) -> WebProxyOutcome {
    if http_code >= 300 || http_code < 200 {
        WebProxyOutcome::BLOCK
    } else if disposition == "NONE"@ {
        WebProxyOutcome::BLOCK
    } else {
        WebProxyOutcome::ALLOW
    }
}

/// How the de-enveloped payload of a proxy-access line parses: exactly 10
/// whitespace tokens — fractional-seconds timestamp, duration, source
/// address, disposition/status, response bytes, method, request target,
/// identity, hierarchy/destination, MIME type — validated in that order.
pub open spec fn fields_spec(payload: Seq<char>) -> ParseSpec {
    let toks = tokens_of(payload);
    if toks.len() != 10 {
        ParseSpec::Malformed
    } else {
        match parse_seconds_spec(toks[0]) {
            None => ParseSpec::Malformed,
            Some(created) => match ip_of(toks[2]) {
                None => ParseSpec::Mismatch,
                Some(source_ip) => match split_slash_spec(toks[8]) {
                    None => ParseSpec::Malformed,
                    Some(hier) => match (if hier.1 == "-"@ {
                        Some(IpValue::V4(0))
                    } else {
                        ip_of(hier.1)
                    }) {
                        None => ParseSpec::Malformed,
                        Some(destination_ip) => match url_parts_spec(toks[6]) {
                            None => ParseSpec::Malformed,
                            Some(up) => match split_slash_spec(toks[3]) {
                                None => ParseSpec::Malformed,
                                Some(disp) => match parse_u32_spec(disp.1) {
                                    None => ParseSpec::Malformed,
                                    Some(http_code) => match parse_u32_spec(toks[4]) {
                                        None => ParseSpec::Malformed,
                                        Some(in_bytes) => ParseSpec::Parsed(
                                            ParsedV {
                                                message: payload,
                                                event_created: created,
                                                network_duration: parse_u64_spec(toks[1]),
                                                event: WebProxyEventV {
                                                    source_ip,
                                                    destination_ip,
                                                    destination_port: up.port,
                                                    domain: if is_bare_scheme(up.host) {
                                                        Seq::<char>::empty()
                                                    } else {
                                                        up.host
                                                    },
                                                    url: up.path,
                                                    http_method: http_method_spec(toks[5]),
                                                    http_code,
                                                    mime_type: toks[9],
                                                    in_bytes,
                                                    out_bytes: 0,
                                                    protocol: protocol_spec(up.scheme),
                                                    rule_name: None,
                                                    rule_category: None,
                                                    user_name: if toks[7] == "-"@ {
                                                        Seq::<char>::empty()
                                                    } else {
                                                        toks[7]
                                                    },
                                                    outcome: outcome_spec(disp.0, http_code),
                                                },
                                            },
                                        ),
                                    },
                                },
                            },
                        },
                    },
                },
            },
        }
    }
}

/// How a whole proxy-access line parses: envelope detection, then the field
/// grammar of the payload.
pub open spec fn parse_log_spec(msg: Seq<char>) -> ParseSpec {
    match header_spec(msg) {
        HeaderSpec::Mismatch => ParseSpec::Mismatch,
        HeaderSpec::Malformed => ParseSpec::Malformed,
        HeaderSpec::Payload(st) => fields_spec(msg.subrange(st, msg.len() as int)),
    }
}

/// Splits a composite `<disposition>/<http-status>` token and reads the
/// status half as an unsigned decimal integer.
pub fn parse_squid_code<'a>(text: &'a str) -> (r: Result<(&'a str, u32), &'static str>)
    ensures
        match split_slash_spec(text@) {
            Some(parts) => match parse_u32_spec(parts.1) {
                Some(code) => r matches Ok(t) && t.0@ == parts.0 && t.1 == code,
                None => r is Err,
            },
            None => r is Err,
        },
{
    let n = text.unicode_len();
    proof {
        lemma_find_char_from(text@, '/', 0);
    }
    let slash_pos = match find_char(text, '/', 0) {
        Some(p) => p,
        None => {
            return Err("Invalid squid code");
        },
    };
    let code = match parse_u32(text.substring_char(slash_pos + 1, n)) {
        Some(c) => c,
        None => {
            return Err("Invalid squid code");
        },
    };
    Ok((text.substring_char(0, slash_pos), code))
}

/// Splits a composite `<hierarchy-code>/<destination>` token at its first
/// `/`.
pub fn destination_ip_from_squid<'a>(text: &'a str) -> (r: Result<
    (&'a str, &'a str),
    &'static str,
>)
    ensures
        match split_slash_spec(text@) {
            Some(parts) => r matches Ok(t) && t.0@ == parts.0 && t.1@ == parts.1,
            None => r is Err,
        },
{
    let n = text.unicode_len();
    proof {
        lemma_find_char_from(text@, '/', 0);
    }
    match find_char(text, '/', 0) {
        Some(p) => Ok((text.substring_char(0, p), text.substring_char(p + 1, n))),
        None => Err(""),
    }
}

/// Derives the decision from the proxy disposition code and the HTTP status.
pub fn parse_outcome(text: &str, http_code: u32) -> (r: WebProxyOutcome)
    ensures
        r == outcome_spec(text@, http_code),
{
    if http_code >= 300 || http_code < 200 {
        return WebProxyOutcome::BLOCK;
    }
    if eq_str(text, "NONE") {
        WebProxyOutcome::BLOCK
    } else {
        WebProxyOutcome::ALLOW
    }
}

/// A request is blocked exactly when its HTTP status lies outside the
/// inclusive range `[200,300)` or the proxy disposition is `NONE`: the
/// out-of-range check always wins, and disposition `NONE` forces BLOCK even
/// for an in-range status.
pub proof fn lemma_outcome_block_iff(disposition: Seq<char>, http_code: u32)
    ensures
        (outcome_spec(disposition, http_code) == WebProxyOutcome::BLOCK) <==> (http_code < 200
            || http_code >= 300 || disposition == "NONE"@),
        (outcome_spec(disposition, http_code) == WebProxyOutcome::ALLOW) <==> (200 <= http_code
            < 300 && disposition != "NONE"@),
{
}

/// Parses one proxy-access line. On success the returned record stores the
/// de-enveloped payload as its message, copies the receipt timestamp and
/// origin through unchanged, and carries the normalized event exactly as
/// [`parse_log_spec`] states; on failure the original record comes back
/// inside the error kind the same specification names.
pub fn parse_log(log: LogEntry) -> (r: Result<ParsedLog, LogParsingError>)
    ensures
        match parse_log_spec(log.message@) {
            ParseSpec::Mismatch => r == Err::<ParsedLog, LogParsingError>(
                LogParsingError::NoValidParser(log),
            ),
            ParseSpec::Malformed => r == Err::<ParsedLog, LogParsingError>(
                LogParsingError::ParserError(log),
            ),
            ParseSpec::Parsed(p) => r matches Ok(out) && out@ == p && out.event_received
                == log.event_received && out.origin == log.origin,
        },
{
    let msg: &str = log.message.as_str();
    let n = msg.unicode_len();
    let start: usize = if n > 0 && msg.get_char(0) == '<' {
        proof {
            lemma_find_seq_from(msg@, "squid"@, 0);
        }
        let squid_pos = match find_sub(msg, "squid", 0) {
            Some(p) => p,
            None => {
                assert(parse_log_spec(log.message@) is Mismatch);
                return Err(LogParsingError::NoValidParser(log));
            },
        };
        proof {
            reveal_strlit(": ");
            lemma_find_seq_from(msg@, ": "@, squid_pos as int);
        }
        match find_sub(msg, ": ", squid_pos) {
            Some(p) => p + 2,
            None => {
                assert(parse_log_spec(log.message@) is Malformed);
                return Err(LogParsingError::ParserError(log));
            },
        }
    } else {
        0
    };
    assert(header_spec(log.message@) == HeaderSpec::Payload(start as int));
    let payload: String = msg.substring_char(start, n).to_owned();
    let ghost pl = payload@;
    assert(pl == log.message@.subrange(start as int, log.message@.len() as int));
    assert(parse_log_spec(log.message@) == fields_spec(pl));

    let toks = tokenize(payload.as_str());
    let ghost tt = tokens_of(pl);
    proof {
        assert(toks.deep_view() == tt);
        assert forall|i: int| 0 <= i < toks@.len() implies #[trigger] toks@[i]@ == tt[i] by {
            assert(toks.deep_view()[i] == toks@[i]@);
        }
    }
    if toks.len() != 10 {
        assert(fields_spec(pl) is Malformed);
        return Err(LogParsingError::ParserError(log));
    }
    let event_created: i64 = match parse_seconds(toks[0].as_str()) {
        Some(v) => v,
        None => {
            return Err(LogParsingError::ParserError(log));
        },
    };
    let source_ip: IpValue = match parse_ip(toks[2].as_str()) {
        Some(ip) => ip,
        None => {
            return Err(LogParsingError::NoValidParser(log));
        },
    };
    let hier = match destination_ip_from_squid(toks[8].as_str()) {
        Ok(t) => t,
        Err(_) => {
            return Err(LogParsingError::ParserError(log));
        },
    };
    let destination_ip: IpValue = if eq_str(hier.1, "-") {
        IpValue::V4(0)
    } else {
        match parse_ip(hier.1) {
            Some(ip) => ip,
            None => {
                return Err(LogParsingError::ParserError(log));
            },
        }
    };
    let up = match parse_url(toks[6].as_str()) {
        Ok(u) => u,
        Err(_) => {
            return Err(LogParsingError::ParserError(log));
        },
    };
    let (protocol_str, host_str, path_str, destination_port): (&str, &str, &str, u16) = up;
    let domain: String = if eq_str(host_str, "http") || eq_str(host_str, "https") || eq_str(
        host_str,
        "ftp",
    ) || eq_str(host_str, "ws") || eq_str(host_str, "wss") {
        String::new()
    } else {
        host_str.to_owned()
    };
    let user_name: String = if eq_str(toks[7].as_str(), "-") {
        String::new()
    } else {
        toks[7].clone()
    };
    let disp = match parse_squid_code(toks[3].as_str()) {
        Ok(t) => t,
        Err(_) => {
            return Err(LogParsingError::ParserError(log));
        },
    };
    let (squid_code, http_code): (&str, u32) = disp;
    let in_bytes: u32 = match parse_u32(toks[4].as_str()) {
        Some(v) => v,
        None => {
            return Err(LogParsingError::ParserError(log));
        },
    };
    let event = WebProxyEvent {
        source_ip,
        destination_ip,
        destination_port,
        domain,
        url: path_str.to_owned(),
        http_method: http_method(toks[5].as_str()),
        http_code,
        mime_type: toks[9].clone(),
        in_bytes,
        out_bytes: 0,
        protocol: parse_protocol(protocol_str),
        rule_name: None,
        rule_category: None,
        user_name,
        outcome: parse_outcome(squid_code, http_code),
    };
    let out = ParsedLog {
        message: payload,
        event_received: log.event_received,
        origin: log.origin,
        event_created,
        event,
        network_duration: parse_u64(toks[1].as_str()),
    };
    proof {
        let p = fields_spec(pl)->Parsed_0;
        assert(out@ =~= p);
    }
    Ok(out)
}

/// Re-parsing the de-enveloped payload stored in a successfully parsed
/// proxy-access record, fed back as a bare line, yields the same parse — the
/// same event, timestamp, duration and stored message.
pub proof fn lemma_reparse_payload(msg: Seq<char>)
    requires
        parse_log_spec(msg) is Parsed,
    ensures
        parse_log_spec(parse_log_spec(msg)->Parsed_0.message) == parse_log_spec(msg),
{
    let st = header_spec(msg)->Payload_0;
    let pay = msg.subrange(st, msg.len() as int);
    assert(parse_log_spec(msg) == fields_spec(pay));
    let toks = tokens_of(pay);
    assert(toks.len() == 10);
    assert(parse_seconds_spec(toks[0]) is Some);
    assert(parse_log_spec(msg)->Parsed_0.message == pay);
    if pay.len() == 0 {
        assert(tokens_from(pay, 0) =~= Seq::<Seq<char>>::empty());
        assert(false);
    }
    if pay[0] != ' ' {
        lemma_find_char_from(pay, ' ', 0);
        match find_char_from(pay, ' ', 0) {
            None => {
                assert(toks[0] == pay.subrange(0, pay.len() as int));
                assert(toks[0][0] == pay[0]);
            },
            Some(i) => {
                assert(pay[i] == ' ');
                assert(i > 0);
                assert(toks[0] == pay.subrange(0, i));
                assert(toks[0][0] == pay[0]);
            },
        }
        crate::text::lemma_seconds_first_char(toks[0]);
        assert(pay[0] != '<');
    }
    assert(header_spec(pay) == HeaderSpec::Payload(0));
    assert(pay.subrange(0, pay.len() as int) =~= pay);
    assert(parse_log_spec(pay) == fields_spec(pay));
}

} // verus!
