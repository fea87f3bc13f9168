//! The textual encodings that the settings stores use: quoted scalars,
//! bracketed comma lists and `scheme://host port` endpoints.
use vstd::prelude::*;
use crate::text::{
    decimal, join_spec, parse_u16, parse_u16_text, split_commas, split_once_space,
    split_once_spec, split_spec, trim, trim_prefix_all, trim_start_matches, trim_ws, u16_text,
};
use crate::types::{Error, Field, Service};

verus! {

/// `s` starts and ends with a single quote, as two distinct characters.
pub open spec fn quoted(s: Seq<char>) -> bool {
    s.len() >= 2 && s[0] == '\'' && s.last() == '\''
}

/// `s` without one enclosing pair of single quotes, if it has them.
pub open spec fn strip_quotes(s: Seq<char>) -> Seq<char> {
    if quoted(s) {
        s.subrange(1, s.len() - 1)
    } else {
        s
    }
}

/// Removes one leading and one trailing single quote, only where both are there.
pub fn strip_str(text: &str) -> (r: &str)
    ensures
        r@ == strip_quotes(text@),
{
    let n = text.unicode_len();
    if n >= 2 && text.get_char(0) == '\'' && text.get_char(n - 1) == '\'' {
        text.substring_char(1, n - 1)
    } else {
        text
    }
}

/// `s` without one enclosing pair of brackets, if it has them.
pub open spec fn unbracket(s: Seq<char>) -> Seq<char> {
    if s.len() >= 2 && s[0] == '[' && s.last() == ']' {
        s.subrange(1, s.len() - 1)
    } else {
        s
    }
}

pub fn strip_brackets(s: &str) -> (r: &str)
    ensures
        r@ == unbracket(s@),
{
    let n = s.unicode_len();
    if n >= 2 && s.get_char(0) == '[' && s.get_char(n - 1) == ']' {
        s.substring_char(1, n - 1)
    } else {
        s
    }
}

/// One element of a stored list in its canonical form.
pub open spec fn clean_item(p: Seq<char>) -> Seq<char> {
    strip_quotes(trim_ws(p))
}

/// A stored comma list in canonical form: each element trimmed and unquoted,
/// joined by plain commas.
pub open spec fn clean_list(s: Seq<char>) -> Seq<char> {
    join_spec(split_spec(s, ',').map_values(|p: Seq<char>| clean_item(p)), seq![','])
}

pub fn parse_list(s: &str) -> (r: String)
    ensures
        r@ == clean_list(s@),
{
    let pieces = split_commas(s);
    let ghost items = split_spec(s@, ',').map_values(|p: Seq<char>| clean_item(p));
    let mut out = String::new();
    let mut i: usize = 0;
    while i < pieces.len()
        invariant
            i <= pieces@.len(),
            pieces@.len() == items.len(),
            forall|k: int| 0 <= k < pieces@.len() ==> clean_item(#[trigger] pieces@[k]@) == items[k],
            out@ == join_spec(items.take(i as int), seq![',']),
        decreases pieces@.len() - i,
    {
        proof {
            assert(clean_item(pieces@[i as int]@) == items[i as int]);
        }
        let p = strip_str(trim(pieces[i].as_str()));
        if i > 0 {
            out.append(",");
        }
        out.append(p);
        proof {
            reveal_strlit(",");
            assert(items.take(i + 1).drop_last() == items.take(i as int));
        }
        i += 1;
    }
    proof {
        assert(items.take(i as int) == items);
    }
    out
}

pub open spec fn quote_mark(c: char) -> bool {
    c == '\'' || c == '"'
}

/// An element made sure to be quoted: a single quote is added at each end
/// of the element that has no quote mark there (an empty element becomes `''`).
pub open spec fn quote_item(p: Seq<char>) -> Seq<char> {
    let open_mark = if p.len() > 0 && quote_mark(p[0]) {
        Seq::<char>::empty()
    } else {
        seq!['\'']
    };
    let close_mark = if p.len() > 0 && quote_mark(p.last()) {
        Seq::<char>::empty()
    } else {
        seq!['\'']
    };
    open_mark + p + close_mark
}

pub fn quote(p: &str) -> (r: String)
    ensures
        r@ == quote_item(p@),
{
    let n = p.unicode_len();
    let opened = n > 0 && (p.get_char(0) == '\'' || p.get_char(0) == '"');
    let closed = n > 0 && (p.get_char(n - 1) == '\'' || p.get_char(n - 1) == '"');
    let mut out = String::new();
    if !opened {
        out.append("'");
    }
    out.append(p);
    if !closed {
        out.append("'");
    }
    proof {
        reveal_strlit("'");
        assert(out@ =~= quote_item(p@));
    }
    out
}

/// A canonical comma list as the bracketed store holds it: `['a', 'b']`.
pub open spec fn bracket_list(s: Seq<char>) -> Seq<char> {
    seq!['['] + join_spec(
        split_spec(s, ',').map_values(|p: Seq<char>| quote_item(trim_ws(p))),
        seq![',', ' '],
    ) + seq![']']
}

pub fn format_bracket_list(s: &str) -> (r: String)
    ensures
        r@ == bracket_list(s@),
{
    let pieces = split_commas(s);
    let ghost items = split_spec(s@, ',').map_values(|p: Seq<char>| quote_item(trim_ws(p)));
    let mut out = String::from_str("[");
    let mut i: usize = 0;
    proof {
        reveal_strlit("[");
        assert(out@ == seq!['['] + join_spec(items.take(0), seq![',', ' ']));
    }
    while i < pieces.len()
        invariant
            i <= pieces@.len(),
            pieces@.len() == items.len(),
            forall|k: int|
                0 <= k < pieces@.len() ==> quote_item(trim_ws(#[trigger] pieces@[k]@)) == items[k],
            out@ == seq!['['] + join_spec(items.take(i as int), seq![',', ' ']),
        decreases pieces@.len() - i,
    {
        proof {
            assert(quote_item(trim_ws(pieces@[i as int]@)) == items[i as int]);
        }
        let q = quote(trim(pieces[i].as_str()));
        if i > 0 {
            out.append(", ");
        }
        out.append(q.as_str());
        proof {
            reveal_strlit(", ");
            assert(items.take(i + 1).drop_last() == items.take(i as int));
        }
        i += 1;
    }
    out.append("]");
    proof {
        reveal_strlit("]");
        assert(items.take(i as int) == items);
    }
    out
}

pub open spec fn http_scheme() -> Seq<char> {
    seq!['h', 't', 't', 'p', ':', '/', '/']
}

pub open spec fn socks_scheme() -> Seq<char> {
    seq!['s', 'o', 'c', 'k', 's', ':', '/', '/']
}

/// The port that a stored numeral stands for; 80 where it is no valid port.
pub open spec fn port_or_default(s: Seq<char>) -> u16 {
    match parse_u16(s) {
        Some(p) => p,
        None => 80,
    }
}

pub fn parse_port(s: &str) -> (r: u16)
    ensures
        r == port_or_default(s@),
{
    match parse_u16_text(s) {
        Some(p) => p,
        None => 80,
    }
}

/// Host and port out of `scheme://host port`; the schemes `http://` and
/// `socks://` are dropped from the front, and a missing space is an error.
pub open spec fn endpoint_spec(s: Seq<char>) -> Result<(Seq<char>, u16), Error> {
    let rest = trim_prefix_all(trim_prefix_all(s, http_scheme()), socks_scheme());
    match split_once_spec(rest, ' ') {
        Some(parts) => Ok((strip_quotes(parts.0), port_or_default(parts.1))),
        None => Err(Error::ParseStr(Field::Schema)),
    }
}

pub fn parse_endpoint(s: &str) -> (r: Result<(String, u16), Error>)
    ensures
        match r {
            Ok(v) => endpoint_spec(s@) == Ok::<(Seq<char>, u16), Error>((v.0@, v.1)),
            Err(e) => endpoint_spec(s@) == Err::<(Seq<char>, u16), Error>(e),
        },
{
    proof {
        reveal_strlit("http://");
        reveal_strlit("socks://");
        assert("http://"@ == http_scheme());
        assert("socks://"@ == socks_scheme());
    }
    let rest = trim_start_matches(trim_start_matches(s, "http://"), "socks://");
    match split_once_space(rest) {
        Some(parts) => Ok((String::from_str(strip_str(parts.0)), parse_port(parts.1))),
        None => Err(Error::ParseStr(Field::Schema)),
    }
}

/// The scheme tag of a service in the INI-style store: HTTPS shares `http`.
pub open spec fn scheme_of(s: Service) -> Seq<char> {
    match s {
        Service::Socks => socks_scheme(),
        _ => http_scheme(),
    }
}

/// `scheme://host port`.
pub open spec fn endpoint_text(s: Service, host: Seq<char>, port: u16) -> Seq<char> {
    scheme_of(s) + host + seq![' '] + decimal(port as nat)
}

pub fn format_endpoint(s: Service, host: &str, port: u16) -> (r: String)
    ensures
        r@ == endpoint_text(s, host@, port),
{
    let mut out = match s {
        Service::Socks => String::from_str("socks://"),
        _ => String::from_str("http://"),
    };
    proof {
        reveal_strlit("http://");
        reveal_strlit("socks://");
        reveal_strlit(" ");
    }
    out.append(host);
    out.append(" ");
    let p = u16_text(port);
    out.append(p.as_str());
    out
}

/// A host as the settings database holds it: `'host'`.
pub open spec fn quoted_host(host: Seq<char>) -> Seq<char> {
    seq!['\''] + host + seq!['\'']
}

pub fn format_host(host: &str) -> (r: String)
    ensures
        r@ == quoted_host(host@),
{
    let mut out = String::from_str("'");
    out.append(host);
    out.append("'");
    proof {
        reveal_strlit("'");
    }
    out
}

} // verus!
