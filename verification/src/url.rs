//! The shared URL decomposition: scheme, host, path and resolved port of a
//! request-target token, identical for both parsers.

use crate::text::{
    eq_str, find_char, find_char_from, find_seq_from, lemma_find_char_from, lemma_find_seq_from,
    parse_u16, parse_u16_spec,
};
use vstd::prelude::*;

verus! {

/// The decomposed parts of a request target.
#[verifier::ext_equal]
pub struct UrlPartsV {
    pub scheme: Seq<char>,
    pub host: Seq<char>,
    pub path: Seq<char>,
    pub port: u16,
}

/// The fixed scheme-to-port fallback table; unknown or empty schemes have no
/// default and resolve to 0.
pub open spec fn default_port_spec(scheme: Seq<char>) -> u16 {
    if scheme == "http"@ {
        80
    } else if scheme == "https"@ {
        443
    } else if scheme == "ftp"@ {
        21
    } else {
        0
    }
}

/// How a request target decomposes. Everything before a `"://"` is the
/// scheme (empty when absent); in the remainder, everything before the first
/// `/` is the authority and the rest (slash included) is the path, `/` when
/// absent; in the authority, a `:` separates host from an explicit port.
/// An explicit port token — `0` included — must be a decimal `u16` and is
/// used verbatim, else the whole decomposition fails; only an absent port
/// (no `:` in the authority) resolves through the scheme table.
pub open spec fn url_parts_spec(u: Seq<char>) -> Option<UrlPartsV> {
    let sep = find_seq_from(u, "://"@, 0);
    let scheme = match sep {
        None => Seq::<char>::empty(),
        Some(p) => u.subrange(0, p),
    };
    let rest = match sep {
        None => u,
        Some(p) => u.subrange(p + "://"@.len(), u.len() as int),
    };
    let slash = find_char_from(rest, '/', 0);
    let auth = match slash {
        None => rest,
        Some(p) => rest.subrange(0, p),
    };
    let path = match slash {
        None => "/"@,
        Some(p) => rest.subrange(p, rest.len() as int),
    };
    let colon = find_char_from(auth, ':', 0);
    let host = match colon {
        None => auth,
        Some(p) => auth.subrange(0, p),
    };
    match colon {
        None => Some(UrlPartsV { scheme, host, path, port: default_port_spec(scheme) }),
        Some(p) => match parse_u16_spec(auth.subrange(p + 1, auth.len() as int)) {
            None => None,
            Some(pt) => Some(UrlPartsV { scheme, host, path, port: pt }),
        },
    }
}

/// The protocol's default port: the fixed scheme-to-port table.
pub fn translate_protocol_to_port(protocol: &str) -> (r: u16)
    ensures
        r == default_port_spec(protocol@),
{
    if eq_str(protocol, "http") {
        80
    } else if eq_str(protocol, "https") {
        443
    } else if eq_str(protocol, "ftp") {
        21
    } else {
        0
    }
}

/// Decomposes a request target into `(scheme, host, path, port)` exactly as
/// [`url_parts_spec`] states; fails only on a non-numeric or oversized
/// explicit port.
pub fn parse_url<'a>(url: &'a str) -> (r: Result<(&'a str, &'a str, &'a str, u16), &'static str>)
    ensures
        match url_parts_spec(url@) {
            Some(p) => r matches Ok(t) && t.0@ == p.scheme && t.1@ == p.host && t.2@ == p.path
                && t.3 == p.port,
            None => r is Err,
        },
{
    let n = url.unicode_len();
    proof {
        reveal_strlit("://");
        lemma_find_seq_from(url@, "://"@, 0);
    }
    let (protocol, sliced): (&'a str, &'a str) = match crate::text::find_sub(url, "://", 0) {
        Some(pos) => (url.substring_char(0, pos), url.substring_char(pos + 3, n)),
        None => ("", url),
    };
    proof {
        reveal_strlit("");
        assert(""@ =~= Seq::<char>::empty());
        lemma_find_char_from(sliced@, '/', 0);
    }
    let ghost sep = find_seq_from(url@, "://"@, 0);
    let ghost spec_scheme = (match sep {
        None => Seq::<char>::empty(),
        Some(p) => url@.subrange(0, p),
    });
    let ghost spec_rest = (match sep {
        None => url@,
        Some(p) => url@.subrange(p + "://"@.len(), url@.len() as int),
    });
    assert(protocol@ == spec_scheme);
    assert(sliced@ == spec_rest);
    let m = sliced.unicode_len();
    let (domain, path): (&'a str, &'a str) = match find_char(sliced, '/', 0) {
        Some(pos) => (sliced.substring_char(0, pos), sliced.substring_char(pos, m)),
        None => (sliced, "/"),
    };
    let ghost slash = find_char_from(spec_rest, '/', 0);
    let ghost spec_auth = (match slash {
        None => spec_rest,
        Some(p) => spec_rest.subrange(0, p),
    });
    let ghost spec_path = (match slash {
        None => "/"@,
        Some(p) => spec_rest.subrange(p, spec_rest.len() as int),
    });
    assert(domain@ == spec_auth);
    assert(path@ == spec_path);
    proof {
        lemma_find_char_from(domain@, ':', 0);
    }
    let k = domain.unicode_len();
    let ghost colon = find_char_from(spec_auth, ':', 0);
    let ghost spec_host = (match colon {
        None => spec_auth,
        Some(p) => spec_auth.subrange(0, p),
    });
    let (host, port): (&'a str, u16) = match find_char(domain, ':', 0) {
        Some(pos) => {
            let explicit = match parse_u16(domain.substring_char(pos + 1, k)) {
                Some(v) => v,
                None => {
                    return Err("Error parsing port");
                },
            };
            (domain.substring_char(0, pos), explicit)
        },
        None => (domain, translate_protocol_to_port(protocol)),
    };
    assert(host@ == spec_host);
    Ok((protocol, host, path, port))
}

} // verus!
