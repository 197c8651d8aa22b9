//! The URL-filter parser: normalizes URL-filtering-daemon decision lines
//! (header with a `YYYY-MM-DD HH:MM:SS` timestamp, body introduced by the
//! `" Request("` marker) into a [`WebProxyEvent`] with a forced "blocked"
//! outcome and a rule category.

use crate::event::{
    IpValue, LogEntry, LogParsingError, ParseSpec, ParsedLog, ParsedV, WebProxyEvent,
    WebProxyEventV, WebProxyOutcome, WebProxyRuleCategory,
};
use crate::net::{ip_of, parse_ip};
use crate::text::{
    eq_str, find_char, find_char_from, find_sub, find_seq_from, lemma_find_char_from,
    lemma_find_seq_from, parse_u64, parse_u64_spec, tokenize, tokens_of,
};
use crate::time::{utc_millis, utc_millis_of};
use vstd::prelude::*;

pub use crate::mapping::http_method;
pub use crate::mapping::parse_protocol;
pub use crate::squid::destination_ip_from_squid;
pub use crate::squid::split_slash_spec;
pub use crate::url::parse_url;
pub use crate::url::translate_protocol_to_port;
pub use crate::url::url_parts_spec;

verus! {

/// True when `pat` occurs somewhere in `s`.
pub open spec fn contains_spec(s: Seq<char>, pat: Seq<char>) -> bool {
    find_seq_from(s, pat, 0) is Some
}

/// True when `pat` occurs somewhere in `s`.
pub fn contains_sub(s: &str, pat: &str) -> (r: bool)
    ensures
        r == contains_spec(s@, pat@),
{
    find_sub(s, pat, 0).is_some()
}

/// The category a filter rule name maps to. Three substring families —
/// automobile, finance and hobby-related names — override everything;
/// after them an exact-match table decides, and unmatched names are
/// explicitly uncategorized. The taxonomy follows a public
/// URL-categorization list.
pub open spec fn rule_category_spec(t: Seq<char>) -> WebProxyRuleCategory {
    if contains_spec(t, "automobile"@) {
        WebProxyRuleCategory::Vehicles
    } else if contains_spec(t, "finance"@) {
        WebProxyRuleCategory::Finance
    } else if contains_spec(t, "hobby"@) {
        WebProxyRuleCategory::PersonalSites
    } else if t == "adv"@ {
        WebProxyRuleCategory::Spam
    } else if t == "aggressive"@ {
        WebProxyRuleCategory::QuestionableLegality
    } else if t == "alcohol"@ {
        WebProxyRuleCategory::Alcohol
    } else if t == "anonvpn"@ {
        WebProxyRuleCategory::ProxyAvoidance
    } else if t == "chat"@ {
        WebProxyRuleCategory::OnlineChat
    } else if t == "costtraps"@ {
        WebProxyRuleCategory::Phishing
    } else if t == "dating"@ {
        WebProxyRuleCategory::PersonalsDating
    } else if t == "downloads"@ {
        WebProxyRuleCategory::P2P
    } else if t == "drugs"@ {
        WebProxyRuleCategory::Marijuana
    } else if t == "dynamic"@ {
        WebProxyRuleCategory::DynamicDNSHost
    } else if t == "education/schools"@ {
        WebProxyRuleCategory::Education
    } else if t == "fortunetelling"@ {
        WebProxyRuleCategory::AlternativeSpirituality
    } else if t == "forum"@ {
        WebProxyRuleCategory::Forums
    } else if t == "gamble"@ {
        WebProxyRuleCategory::Gambling
    } else if t == "government"@ {
        WebProxyRuleCategory::Government
    } else if t == "hacking"@ {
        WebProxyRuleCategory::Hacking
    } else if t == "homestyle"@ {
        WebProxyRuleCategory::PersonalSites
    } else if t == "hospitals"@ {
        WebProxyRuleCategory::Health
    } else if t == "imagehosting"@ {
        WebProxyRuleCategory::WebHosting
    } else if t == "isp"@ {
        WebProxyRuleCategory::InternetTelephony
    } else if t == "jobsearch"@ {
        WebProxyRuleCategory::JobSearch
    } else if t == "library"@ {
        WebProxyRuleCategory::Education
    } else if t == "military"@ {
        WebProxyRuleCategory::Military
    } else if t == "movies"@ {
        WebProxyRuleCategory::Education
    } else if t == "music"@ {
        WebProxyRuleCategory::P2P
    } else if t == "news"@ {
        WebProxyRuleCategory::News
    } else if t == "podcasts"@ {
        WebProxyRuleCategory::RadioAudioStreams
    } else if t == "politics"@ {
        WebProxyRuleCategory::PoliticalAdvocacy
    } else if t == "porn"@ {
        WebProxyRuleCategory::Pornography
    } else if t == "radiotv"@ {
        WebProxyRuleCategory::RadioAudioStreams
    } else if t == "recreation/humor"@ {
        WebProxyRuleCategory::HumorJokes
    } else if t == "recreation/martialarts"@ {
        WebProxyRuleCategory::Sports
    } else if t == "recreation/restaurants"@ {
        WebProxyRuleCategory::Restaurants
    } else if t == "recreation/sports"@ {
        WebProxyRuleCategory::Sports
    } else if t == "recreation/travel"@ {
        WebProxyRuleCategory::Travel
    } else if t == "recreation/wellness"@ {
        WebProxyRuleCategory::Health
    } else if t == "redirector"@ {
        WebProxyRuleCategory::URLShorteners
    } else if t == "religion"@ {
        WebProxyRuleCategory::Religion
    } else if t == "remotecontrol"@ {
        WebProxyRuleCategory::RemoteAccess
    } else if t == "ringtones"@ {
        WebProxyRuleCategory::InternetTelephony
    } else if t == "science/astronomy"@ {
        WebProxyRuleCategory::Education
    } else if t == "science/chemistry"@ {
        WebProxyRuleCategory::Education
    } else if t == "searchengines"@ {
        WebProxyRuleCategory::SearchEngines
    } else if t == "sex/lingerie"@ {
        WebProxyRuleCategory::IntimateApparel
    } else if t == "shopping"@ {
        WebProxyRuleCategory::Shopping
    } else if t == "socialnet"@ {
        WebProxyRuleCategory::SocialNetworking
    } else if t == "spyware"@ {
        WebProxyRuleCategory::MaliciousSources
    } else if t == "tracker"@ {
        WebProxyRuleCategory::WebAds
    } else if t == "updatesites"@ {
        WebProxyRuleCategory::SoftwareDownloads
    } else if t == "urlshortener"@ {
        WebProxyRuleCategory::URLShorteners
    } else if t == "violence"@ {
        WebProxyRuleCategory::Violence
    } else if t == "warez"@ {
        WebProxyRuleCategory::CopyrightConcerns
    } else if t == "weapons"@ {
        WebProxyRuleCategory::Weapons
    } else if t == "webmail"@ {
        WebProxyRuleCategory::Email
    } else if t == "webphone"@ {
        WebProxyRuleCategory::OnlineChat
    } else if t == "webradio"@ {
        WebProxyRuleCategory::RadioAudioStreams
    } else if t == "webtv"@ {
        WebProxyRuleCategory::VideoStreams
    } else {
        WebProxyRuleCategory::Uncategorized
    }
}

/// Maps a filter rule name onto the closed category taxonomy.
pub fn rule_category(text: &str) -> (r: WebProxyRuleCategory)
    ensures
        r == rule_category_spec(text@),
{
    if contains_sub(text, "automobile") {
        return WebProxyRuleCategory::Vehicles;
    } else if contains_sub(text, "finance") {
        return WebProxyRuleCategory::Finance;
    } else if contains_sub(text, "hobby") {
        return WebProxyRuleCategory::PersonalSites;
    }
    if eq_str(text, "adv") {
        WebProxyRuleCategory::Spam
    } else if eq_str(text, "aggressive") {
        WebProxyRuleCategory::QuestionableLegality
    } else if eq_str(text, "alcohol") {
        WebProxyRuleCategory::Alcohol
    } else if eq_str(text, "anonvpn") {
        WebProxyRuleCategory::ProxyAvoidance
    } else if eq_str(text, "chat") {
        WebProxyRuleCategory::OnlineChat
    } else if eq_str(text, "costtraps") {
        WebProxyRuleCategory::Phishing
    } else if eq_str(text, "dating") {
        WebProxyRuleCategory::PersonalsDating
    } else if eq_str(text, "downloads") {
        WebProxyRuleCategory::P2P
    } else if eq_str(text, "drugs") {
        WebProxyRuleCategory::Marijuana
    } else if eq_str(text, "dynamic") {
        WebProxyRuleCategory::DynamicDNSHost
    } else if eq_str(text, "education/schools") {
        WebProxyRuleCategory::Education
    } else if eq_str(text, "fortunetelling") {
        WebProxyRuleCategory::AlternativeSpirituality
    } else if eq_str(text, "forum") {
        WebProxyRuleCategory::Forums
    } else if eq_str(text, "gamble") {
        WebProxyRuleCategory::Gambling
    } else if eq_str(text, "government") {
        WebProxyRuleCategory::Government
    } else if eq_str(text, "hacking") {
        WebProxyRuleCategory::Hacking
    } else if eq_str(text, "homestyle") {
        WebProxyRuleCategory::PersonalSites
    } else if eq_str(text, "hospitals") {
        WebProxyRuleCategory::Health
    } else if eq_str(text, "imagehosting") {
        WebProxyRuleCategory::WebHosting
    } else if eq_str(text, "isp") {
        WebProxyRuleCategory::InternetTelephony
    } else if eq_str(text, "jobsearch") {
        WebProxyRuleCategory::JobSearch
    } else if eq_str(text, "library") {
        WebProxyRuleCategory::Education
    } else if eq_str(text, "military") {
        WebProxyRuleCategory::Military
    } else if eq_str(text, "movies") {
        WebProxyRuleCategory::Education
    } else if eq_str(text, "music") {
        WebProxyRuleCategory::P2P
    } else if eq_str(text, "news") {
        WebProxyRuleCategory::News
    } else if eq_str(text, "podcasts") {
        WebProxyRuleCategory::RadioAudioStreams
    } else if eq_str(text, "politics") {
        WebProxyRuleCategory::PoliticalAdvocacy
    } else if eq_str(text, "porn") {
        WebProxyRuleCategory::Pornography
    } else if eq_str(text, "radiotv") {
        WebProxyRuleCategory::RadioAudioStreams
    } else if eq_str(text, "recreation/humor") {
        WebProxyRuleCategory::HumorJokes
    } else if eq_str(text, "recreation/martialarts") {
        WebProxyRuleCategory::Sports
    } else if eq_str(text, "recreation/restaurants") {
        WebProxyRuleCategory::Restaurants
    } else if eq_str(text, "recreation/sports") {
        WebProxyRuleCategory::Sports
    } else if eq_str(text, "recreation/travel") {
        WebProxyRuleCategory::Travel
    } else if eq_str(text, "recreation/wellness") {
        WebProxyRuleCategory::Health
    } else if eq_str(text, "redirector") {
        WebProxyRuleCategory::URLShorteners
    } else if eq_str(text, "religion") {
        WebProxyRuleCategory::Religion
    } else if eq_str(text, "remotecontrol") {
        WebProxyRuleCategory::RemoteAccess
    } else if eq_str(text, "ringtones") {
        WebProxyRuleCategory::InternetTelephony
    } else if eq_str(text, "science/astronomy") {
        WebProxyRuleCategory::Education
    } else if eq_str(text, "science/chemistry") {
        WebProxyRuleCategory::Education
    } else if eq_str(text, "searchengines") {
        WebProxyRuleCategory::SearchEngines
    } else if eq_str(text, "sex/lingerie") {
        WebProxyRuleCategory::IntimateApparel
    } else if eq_str(text, "shopping") {
        WebProxyRuleCategory::Shopping
    } else if eq_str(text, "socialnet") {
        WebProxyRuleCategory::SocialNetworking
    } else if eq_str(text, "spyware") {
        WebProxyRuleCategory::MaliciousSources
    } else if eq_str(text, "tracker") {
        WebProxyRuleCategory::WebAds
    } else if eq_str(text, "updatesites") {
        WebProxyRuleCategory::SoftwareDownloads
    } else if eq_str(text, "urlshortener") {
        WebProxyRuleCategory::URLShorteners
    } else if eq_str(text, "violence") {
        WebProxyRuleCategory::Violence
    } else if eq_str(text, "warez") {
        WebProxyRuleCategory::CopyrightConcerns
    } else if eq_str(text, "weapons") {
        WebProxyRuleCategory::Weapons
    } else if eq_str(text, "webmail") {
        WebProxyRuleCategory::Email
    } else if eq_str(text, "webphone") {
        WebProxyRuleCategory::OnlineChat
    } else if eq_str(text, "webradio") {
        WebProxyRuleCategory::RadioAudioStreams
    } else if eq_str(text, "webtv") {
        WebProxyRuleCategory::VideoStreams
    } else {
        WebProxyRuleCategory::Uncategorized
    }
}

/// The ruleset and rule name of a rule tag `...(<ruleset>/<rule>/...)`: the
/// parenthesized segment before the first `/` at or after the `(`, and the
/// segment between that `/` and the next.
pub open spec fn rule_parts_spec(v: Seq<char>) -> Option<(Seq<char>, Seq<char>)> {
    match find_char_from(v, '(', 0) {
        None => None,
        Some(sp) => match find_char_from(v, '/', sp) {
            None => None,
            Some(ce) => match find_char_from(v, '/', ce + 1) {
                None => None,
                Some(se) => Some((v.subrange(sp + 1, ce), v.subrange(ce + 1, se))),
            },
        },
    }
}

/// Extracts the ruleset and the rule name from a rule tag.
pub fn parse_rule<'a>(val: &'a str) -> (r: Result<(&'a str, &'a str), &'static str>)
    ensures
        match rule_parts_spec(val@) {
            Some(parts) => r matches Ok(t) && t.0@ == parts.0 && t.1@ == parts.1,
            None => r is Err,
        },
{
    let n = val.unicode_len();
    proof {
        lemma_find_char_from(val@, '(', 0);
    }
    let start_pos = match find_char(val, '(', 0) {
        Some(p) => p,
        None => {
            return Err("");
        },
    };
    proof {
        lemma_find_char_from(val@, '/', start_pos as int);
    }
    let cat_end = match find_char(val, '/', start_pos) {
        Some(p) => p,
        None => {
            return Err("");
        },
    };
    proof {
        lemma_find_char_from(val@, '/', cat_end as int + 1);
    }
    let subcat_end = match find_char(val, '/', cat_end + 1) {
        Some(p) => p,
        None => {
            return Err("");
        },
    };
    Ok((val.substring_char(start_pos + 1, cat_end), val.substring_char(cat_end + 1, subcat_end)))
}

/// The decision a disposition token alone maps to: `NONE` blocks, anything
/// else allows.
pub open spec fn outcome_text_spec(t: Seq<char>) -> WebProxyOutcome {
    if t == "NONE"@ {
        WebProxyOutcome::BLOCK
    } else {
        WebProxyOutcome::ALLOW
    }
}

/// Derives a decision from a disposition token alone.
pub fn parse_outcome(text: &str) -> (r: WebProxyOutcome)
    ensures
        r == outcome_text_spec(text@),
{
    if eq_str(text, "NONE") {
        WebProxyOutcome::BLOCK
    } else {
        WebProxyOutcome::ALLOW
    }
}

/// How a whole filter-decision line parses. The `" Request("` marker must be
/// present, else the line is not this format. The header (everything before
/// the marker) must hold at least 3 whitespace tokens, of which the two just
/// before the last one are the date and the time, parsed together against
/// the fixed UTC pattern. The body (from the marker's parenthesis word on)
/// must hold at least 5 tokens: rule tag, request URL, source-address pair,
/// identity and method. The destination is always the unspecified address,
/// the status the fixed interception sentinel 503, and the outcome BLOCK.
pub open spec fn parse_log_spec(msg: Seq<char>) -> ParseSpec {
    match find_seq_from(msg, " Request("@, 0) {
        None => ParseSpec::Mismatch,
        Some(rp) => {
            let htoks = tokens_of(msg.subrange(0, rp));
            if htoks.len() < 3 {
                ParseSpec::Malformed
            } else {
                match utc_millis_of(
                    htoks[htoks.len() - 3] + " "@ + htoks[htoks.len() - 2],
                ) {
                    None => ParseSpec::Malformed,
                    Some(created) => {
                        let btoks = tokens_of(msg.subrange(rp + 1, msg.len() as int));
                        if btoks.len() < 5 {
                            ParseSpec::Malformed
                        } else {
                            match split_slash_spec(btoks[2]) {
                                None => ParseSpec::Malformed,
                                Some(srcpair) => match ip_of(srcpair.0) {
                                    None => ParseSpec::Mismatch,
                                    Some(source_ip) => match url_parts_spec(btoks[1]) {
                                        None => ParseSpec::Malformed,
                                        Some(up) => match rule_parts_spec(btoks[0]) {
                                            None => ParseSpec::Malformed,
                                            Some(rule) => ParseSpec::Parsed(
                                                ParsedV {
                                                    message: msg,
                                                    event_created: created,
                                                    network_duration: parse_u64_spec(btoks[1]),
                                                    event: WebProxyEventV {
                                                        source_ip,
                                                        destination_ip: IpValue::V4(0),
                                                        destination_port: up.port,
                                                        domain: up.host,
                                                        url: up.path,
                                                        http_method: crate::mapping::http_method_spec(
                                                            btoks[4],
                                                        ),
                                                        http_code: 503,
                                                        mime_type: Seq::<char>::empty(),
                                                        in_bytes: 0,
                                                        out_bytes: 0,
                                                        protocol: crate::mapping::protocol_spec(
                                                            up.scheme,
                                                        ),
                                                        rule_name: Some(rule.1),
                                                        rule_category: Some(
                                                            rule_category_spec(rule.1),
                                                        ),
                                                        user_name: if btoks[3] == "-"@ {
                                                            Seq::<char>::empty()
                                                        } else {
                                                            btoks[3]
                                                        },
                                                        outcome: WebProxyOutcome::BLOCK,
                                                    },
                                                },
                                            ),
                                        },
                                    },
                                },
                            }
                        }
                    },
                }
            }
        },
    }
}

/// Parses one filter-decision line. On success the returned record stores
/// the whole original line as its message, copies the receipt timestamp and
/// origin through unchanged, and carries the normalized event exactly as
/// [`parse_log_spec`] states; on failure the original record comes back
/// inside the error kind the same specification names.
pub fn parse_log(log: LogEntry) -> (r: Result<ParsedLog, LogParsingError>)
    ensures
        match parse_log_spec(log.message@) {
            ParseSpec::Mismatch => r == Err::<ParsedLog, LogParsingError>(
                LogParsingError::NoValidParser(log),
            ),
            ParseSpec::Malformed => r == Err::<ParsedLog, LogParsingError>(
                LogParsingError::ParserError(log),
            ),
            ParseSpec::Parsed(p) => r matches Ok(out) && out@ == p && out.event_received
                == log.event_received && out.origin == log.origin,
        },
{
    let msg: &str = log.message.as_str();
    let n = msg.unicode_len();
    let request_pos = match find_sub(msg, " Request(", 0) {
        Some(p) => p,
        None => {
            return Err(LogParsingError::NoValidParser(log));
        },
    };
    proof {
        reveal_strlit(" Request(");
        lemma_find_seq_from(msg@, " Request("@, 0);
    }
    let header: String = msg.substring_char(0, request_pos).to_owned();
    let htoks = tokenize(header.as_str());
    let ghost ht = tokens_of(log.message@.subrange(0, request_pos as int));
    proof {
        assert(htoks.deep_view() == ht);
        assert forall|i: int| 0 <= i < htoks@.len() implies #[trigger] htoks@[i]@ == ht[i] by {
            assert(htoks.deep_view()[i] == htoks@[i]@);
        }
    }
    if htoks.len() < 3 {
        return Err(LogParsingError::ParserError(log));
    }
    let mut stamp: String = htoks[htoks.len() - 3].clone();
    stamp.append(" ");
    stamp.append(htoks[htoks.len() - 2].as_str());
    assert(stamp@ == ht[ht.len() - 3] + " "@ + ht[ht.len() - 2]);
    let event_created: i64 = match utc_millis(stamp.as_str()) {
        Some(v) => v,
        None => {
            return Err(LogParsingError::ParserError(log));
        },
    };
    let body: String = msg.substring_char(request_pos + 1, n).to_owned();
    let btoks = tokenize(body.as_str());
    let ghost bt = tokens_of(
        log.message@.subrange(request_pos + 1, log.message@.len() as int),
    );
    proof {
        assert(btoks.deep_view() == bt);
        assert forall|i: int| 0 <= i < btoks@.len() implies #[trigger] btoks@[i]@ == bt[i] by {
            assert(btoks.deep_view()[i] == btoks@[i]@);
        }
    }
    if btoks.len() < 5 {
        return Err(LogParsingError::ParserError(log));
    }
    let srcpair = match destination_ip_from_squid(btoks[2].as_str()) {
        Ok(t) => t,
        Err(_) => {
            return Err(LogParsingError::ParserError(log));
        },
    };
    let source_ip: IpValue = match parse_ip(srcpair.0) {
        Some(ip) => ip,
        None => {
            return Err(LogParsingError::NoValidParser(log));
        },
    };
    let up = match parse_url(btoks[1].as_str()) {
        Ok(u) => u,
        Err(_) => {
            return Err(LogParsingError::ParserError(log));
        },
    };
    let (protocol_str, host_str, path_str, destination_port): (&str, &str, &str, u16) = up;
    let user_name: String = if eq_str(btoks[3].as_str(), "-") {
        String::new()
    } else {
        btoks[3].clone()
    };
    let rule = match parse_rule(btoks[0].as_str()) {
        Ok(t) => t,
        Err(_) => {
            return Err(LogParsingError::ParserError(log));
        },
    };
    let category = rule_category(rule.1);
    let event = WebProxyEvent {
        source_ip,
        destination_ip: IpValue::V4(0),
        destination_port,
        domain: host_str.to_owned(),
        url: path_str.to_owned(),
        http_method: http_method(btoks[4].as_str()),
        http_code: 503,
        mime_type: String::new(),
        in_bytes: 0,
        out_bytes: 0,
        protocol: parse_protocol(protocol_str),
        rule_name: Some(rule.1.to_owned()),
        rule_category: Some(category),
        user_name,
        outcome: WebProxyOutcome::BLOCK,
    };
    let network_duration = parse_u64(btoks[1].as_str());
    let out = ParsedLog {
        message: log.message.clone(),
        event_received: log.event_received,
        origin: log.origin,
        event_created,
        event,
        network_duration,
    };
    proof {
        let p = parse_log_spec(log.message@)->Parsed_0;
        assert(out@ =~= p);
    }
    Ok(out)
}

} // verus!
