//! The normalized web-proxy event schema: the data both parsers produce, the
//! transport record they consume, and the two-kind error taxonomy, together
//! with the mathematical views the contracts are stated over.

use vstd::prelude::*;

verus! {

/// The value of an IPv4 or IPv6 address literal.
#[derive(Clone, Copy, Debug, PartialEq, Eq, Structural)]
pub enum IpValue {
    V4(u32),
    V6(u128),
}

/// Closed HTTP-method set with an escape hatch carrying the upper-cased
/// original token.
#[derive(Clone, Debug)]
pub enum HttpMethod {
    GET,
    POST,
    PUT,
    PATCH,
    OPTIONS,
    CONNECT,
    UNKNOWN(String),
}

/// Mathematical view of [`HttpMethod`].
#[verifier::ext_equal]
pub enum HttpMethodV {
    GET,
    POST,
    PUT,
    PATCH,
    OPTIONS,
    CONNECT,
    UNKNOWN(Seq<char>),
}

impl View for HttpMethod {
    type V = HttpMethodV;

    open spec fn view(&self) -> HttpMethodV {
        match self {
            HttpMethod::GET => HttpMethodV::GET,
            HttpMethod::POST => HttpMethodV::POST,
            HttpMethod::PUT => HttpMethodV::PUT,
            HttpMethod::PATCH => HttpMethodV::PATCH,
            HttpMethod::OPTIONS => HttpMethodV::OPTIONS,
            HttpMethod::CONNECT => HttpMethodV::CONNECT,
            HttpMethod::UNKNOWN(s) => HttpMethodV::UNKNOWN(s@),
        }
    }
}

/// Closed protocol/scheme set with an escape hatch carrying the original
/// token verbatim.
#[derive(Clone, Debug)]
pub enum WebProtocol {
    HTTP,
    HTTPS,
    FTP,
    WS,
    WSS,
    UNKNOWN(String),
}

/// Mathematical view of [`WebProtocol`].
#[verifier::ext_equal]
pub enum WebProtocolV {
    HTTP,
    HTTPS,
    FTP,
    WS,
    WSS,
    UNKNOWN(Seq<char>),
}

impl View for WebProtocol {
    type V = WebProtocolV;

    open spec fn view(&self) -> WebProtocolV {
        match self {
            WebProtocol::HTTP => WebProtocolV::HTTP,
            WebProtocol::HTTPS => WebProtocolV::HTTPS,
            WebProtocol::FTP => WebProtocolV::FTP,
            WebProtocol::WS => WebProtocolV::WS,
            WebProtocol::WSS => WebProtocolV::WSS,
            WebProtocol::UNKNOWN(s) => WebProtocolV::UNKNOWN(s@),
        }
    }
}

/// The normalized two-valued decision on a proxied request.
#[derive(Clone, Copy, Debug, PartialEq, Eq, Structural)]
pub enum WebProxyOutcome {
    ALLOW,
    BLOCK,
}

/// The closed rule-category taxonomy a filter rule name maps into.
#[derive(Clone, Copy, Debug, PartialEq, Eq, Structural)]
pub enum WebProxyRuleCategory {
    Alcohol,
    AlternativeSpirituality,
    CopyrightConcerns,
    DynamicDNSHost,
    Education,
    Email,
    Finance,
    Forums,
    Gambling,
    Government,
    Hacking,
    Health,
    HumorJokes,
    InternetTelephony,
    IntimateApparel,
    JobSearch,
    MaliciousSources,
    Marijuana,
    Military,
    News,
    OnlineChat,
    P2P,
    PersonalsDating,
    PersonalSites,
    Phishing,
    PoliticalAdvocacy,
    Pornography,
    ProxyAvoidance,
    QuestionableLegality,
    RadioAudioStreams,
    Religion,
    RemoteAccess,
    Restaurants,
    SearchEngines,
    Shopping,
    SocialNetworking,
    SoftwareDownloads,
    Spam,
    Sports,
    Travel,
    Uncategorized,
    URLShorteners,
    Vehicles,
    VideoStreams,
    Violence,
    WebAds,
    WebHosting,
    Weapons,
}

/// The normalized web-proxy event, owned by the caller once returned.
#[derive(Clone, Debug)]
pub struct WebProxyEvent {
    pub source_ip: IpValue,
    pub destination_ip: IpValue,
    pub destination_port: u16,
    pub domain: String,
    pub url: String,
    pub http_method: HttpMethod,
    pub http_code: u32,
    pub mime_type: String,
    pub in_bytes: u32,
    pub out_bytes: u32,
    pub protocol: WebProtocol,
    pub rule_name: Option<String>,
    pub rule_category: Option<WebProxyRuleCategory>,
    pub user_name: String,
    pub outcome: WebProxyOutcome,
}

/// Mathematical view of [`WebProxyEvent`].
#[verifier::ext_equal]
pub struct WebProxyEventV {
    pub source_ip: IpValue,
    pub destination_ip: IpValue,
    pub destination_port: u16,
    pub domain: Seq<char>,
    pub url: Seq<char>,
    pub http_method: HttpMethodV,
    pub http_code: u32,
    pub mime_type: Seq<char>,
    pub in_bytes: u32,
    pub out_bytes: u32,
    pub protocol: WebProtocolV,
    pub rule_name: Option<Seq<char>>,
    pub rule_category: Option<WebProxyRuleCategory>,
    pub user_name: Seq<char>,
    pub outcome: WebProxyOutcome,
}

impl View for WebProxyEvent {
    type V = WebProxyEventV;

    open spec fn view(&self) -> WebProxyEventV {
        WebProxyEventV {
            source_ip: self.source_ip,
            destination_ip: self.destination_ip,
            destination_port: self.destination_port,
            domain: self.domain@,
            url: self.url@,
            http_method: self.http_method@,
            http_code: self.http_code,
            mime_type: self.mime_type@,
            in_bytes: self.in_bytes,
            out_bytes: self.out_bytes,
            protocol: self.protocol@,
            rule_name: match &self.rule_name {
                Some(s) => Some(s@),
                None => None,
            },
            rule_category: self.rule_category,
            user_name: self.user_name@,
            outcome: self.outcome,
        }
    }
}

/// One raw log record as handed in by the transport: the line itself plus the
/// receipt timestamp and origin address, both opaque to the parsers and
/// copied through unchanged.
#[derive(Clone, Debug)]
pub struct LogEntry {
    pub message: String,
    pub event_received: i64,
    pub origin: IpValue,
}

/// A successfully parsed record: the stored raw message (de-enveloped for the
/// proxy parser), the copied-through context, the event timestamp taken from
/// the line itself, the normalized event, and the best-effort duration.
#[derive(Clone, Debug)]
pub struct ParsedLog {
    pub message: String,
    pub event_received: i64,
    pub origin: IpValue,
    pub event_created: i64,
    pub event: WebProxyEvent,
    pub network_duration: Option<u64>,
}

/// Mathematical view of the line-derived part of [`ParsedLog`].
#[verifier::ext_equal]
pub struct ParsedV {
    pub message: Seq<char>,
    pub event_created: i64,
    pub event: WebProxyEventV,
    pub network_duration: Option<u64>,
}

impl View for ParsedLog {
    type V = ParsedV;

    open spec fn view(&self) -> ParsedV {
        ParsedV {
            message: self.message@,
            event_created: self.event_created,
            event: self.event@,
            network_duration: self.network_duration,
        }
    }
}

/// The two failure kinds: `NoValidParser` when the line is not this parser's
/// vendor format at all, `ParserError` when it is but is structurally
/// malformed. Both return the original record untouched so a dispatcher can
/// try another parser or quarantine the line.
#[derive(Debug)]
pub enum LogParsingError {
    NoValidParser(LogEntry),
    ParserError(LogEntry),
}

/// What a parser determines about a line, stated over sequences alone:
/// either one of the two failure kinds, or the parsed outcome.
#[verifier::ext_equal]
pub enum ParseSpec {
    Mismatch,
    Malformed,
    Parsed(ParsedV),
}

} // verus!
