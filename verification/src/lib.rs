//! Parsers that normalize free-text proxy access-log lines and URL-filter
//! decision-log lines into a structured, vendor-neutral web-proxy event.
//!
//! Two independent parsers share a whitespace tokenizer, a URL decomposition
//! algorithm and closed protocol/method mappings:
//! - [`squid`] parses cache-proxy access-log lines (syslog-wrapped or bare);
//! - [`squidguard`] parses URL-filtering-daemon decision lines, producing an
//!   event with a forced "blocked" outcome and a rule category.

pub mod event;
pub mod mapping;
pub mod net;
pub mod squid;
pub mod squidguard;
pub mod text;
pub mod time;
pub mod url;
