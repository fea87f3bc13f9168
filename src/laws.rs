//! Properties that hold across the operations of the library.
use vstd::prelude::*;
use vstd::utf8::{decode_utf8, valid_utf8};
use crate::adapter::{
    bypass_read, bypass_writes, endpoint_read, endpoint_writes, enable_read, enable_writes, plan_for, proxy_read,
    reads_spec, system_read, Query, first_failure, lemma_first_failure_prefix, step_spec, Step,
};
use crate::codec::{
    clean_item, quote_item, quote_mark, endpoint_text, http_scheme, port_or_default, quoted, quoted_host, socks_scheme,
    strip_quotes,
};
use crate::store::{command_spec, desktop_of, Setting};
use crate::text::{
    all_digits, decimal, digit_char, digit_value, digits_value, find_char, is_white, parse_u16,
    join_spec, split_once_spec, split_spec, trim_end_ws, trim_prefix_all, trim_start_ws, trim_ws,
};
use crate::types::{Desktop, Error, Reply, Service};

verus! {

pub open spec fn starts_with(s: Seq<char>, p: Seq<char>) -> bool {
    p.len() <= s.len() && s.subrange(0, p.len() as int) == p
}

/// Whether `reply` is output whose text is `v`, give or take white space
/// around it (the tools end their output with a newline).
pub open spec fn reply_holds(reply: Reply, v: Seq<char>) -> bool {
    reply matches Ok(b) && valid_utf8(b@) && trim_ws(decode_utf8(b@)) == v
}

proof fn lemma_trim_fixed(s: Seq<char>)
    requires
        s.len() > 0,
        !is_white(s[0]),
        !is_white(s.last()),
    ensures
        trim_ws(s) == s,
{
    assert(trim_start_ws(s) == s);
    assert(trim_end_ws(s) == s);
}

proof fn lemma_decimal(n: nat)
    ensures
        decimal(n).len() > 0,
        all_digits(decimal(n)),
        digits_value(decimal(n)) == n,
    decreases n,
{
    if n < 10 {
        let d = decimal(n);
        assert(d.drop_last() =~= Seq::<char>::empty());
        assert(digit_value(digit_char(n)) == n);
        assert(digits_value(d) == digits_value(d.drop_last()) * 10 + digit_value(d.last()));
    } else {
        lemma_decimal(n / 10);
        let d = decimal(n);
        assert(d.drop_last() == decimal(n / 10));
        assert(digit_value(digit_char(n % 10)) == n % 10);
        assert(d.last() == digit_char(n % 10));
        assert(digits_value(d) == digits_value(d.drop_last()) * 10 + digit_value(d.last()));
        assert(n / 10 * 10 + n % 10 == n) by (nonlinear_arith);
        assert forall|i: int| 0 <= i < d.len() implies crate::text::is_digit(#[trigger] d[i]) by {
            if i < d.len() - 1 {
                assert(d[i] == decimal(n / 10)[i]);
            }
        }
    }
}

proof fn lemma_decimal_port(p: u16)
    ensures
        parse_u16(decimal(p as nat)) == Some(p),
        trim_ws(decimal(p as nat)) == decimal(p as nat),
        port_or_default(decimal(p as nat)) == p,
{
    let d = decimal(p as nat);
    lemma_decimal(p as nat);
    assert(crate::text::is_digit(d[0]));
    assert(crate::text::is_digit(d.last()));
    lemma_trim_fixed(d);
}

/// Reading the enable flag back after writing it gives the flag that was
/// written, on both supported desktops: the mode is what the flag's write
/// sets and what its read fetches.
pub proof fn enable_round_trip(d: Desktop, enable: bool, reply: Reply)
    requires
        d != Desktop::Unsupported,
        reply_holds(reply, enable_writes(d, enable)[0].1),
    ensures
        reads_spec(d, Query::Enable) == seq![enable_writes(d, enable)[0].0],
        enable_read(d, seq![reply], 0) == Ok::<bool, Error>(enable),
{
    reveal_strlit("'manual'");
    reveal_strlit("'none'");
    reveal_strlit("1");
    reveal_strlit("0");
    let v = enable_writes(d, enable)[0].1;
    lemma_trim_fixed(v);
    if d == Desktop::Gnome && !enable {
        assert(v.len() != "'manual'"@.len());
    }
    if d == Desktop::Kde && !enable {
        assert(v[0] != "1"@[0]);
    }
}

/// `c` occurs nowhere in `s`.
pub open spec fn lacks(s: Seq<char>, c: char) -> bool {
    forall|i: int| 0 <= i < s.len() ==> s[i] != c
}

proof fn lemma_find_after(a: Seq<char>, b: Seq<char>, c: char)
    requires
        lacks(a, c),
    ensures
        find_char(a + seq![c] + b, c) == Some(a.len() as int),
    decreases a.len(),
{
    let s = a + seq![c] + b;
    if a.len() > 0 {
        assert(s.drop_first() =~= a.drop_first() + seq![c] + b);
        assert(s[0] == a[0]);
        lemma_find_after(a.drop_first(), b, c);
    } else {
        assert(s[0] == c);
    }
}

proof fn lemma_no_prefix(host: Seq<char>, t: Seq<char>, p: Seq<char>)
    requires
        lacks(host, ' '),
        lacks(p, ' '),
        !starts_with(host, p),
    ensures
        !starts_with(host + seq![' '] + t, p),
{
    let s = host + seq![' '] + t;
    if starts_with(s, p) {
        if host.len() >= p.len() {
            assert(host.subrange(0, p.len() as int) =~= s.subrange(0, p.len() as int));
        } else {
            let i = host.len() as int;
            assert(s.subrange(0, p.len() as int)[i] == s[i]);
            assert(p[i] == ' ');
        }
    }
}

proof fn lemma_schemes_lack_space()
    ensures
        lacks(http_scheme(), ' '),
        lacks(socks_scheme(), ' '),
{
}

/// Reading an endpoint back after writing it gives the host and port that
/// were written: the write sets the settings that the read fetches, in the
/// same order. The INI-style encoding `scheme://host port` holds a host
/// back only where it has no space, is not quoted, and does not begin with
/// `http://` or `socks://`.
pub proof fn endpoint_round_trip(
    d: Desktop,
    s: Service,
    host: Seq<char>,
    port: u16,
    replies: Seq<Reply>,
)
    requires
        d != Desktop::Unsupported,
        d == Desktop::Kde ==> lacks(host, ' ') && !quoted(host) && !starts_with(host, http_scheme())
            && !starts_with(host, socks_scheme()),
        replies.len() == endpoint_writes(d, s, host, port).len(),
        forall|i: int|
            0 <= i < replies.len() ==> reply_holds(
                #[trigger] replies[i],
                endpoint_writes(d, s, host, port)[i].1,
            ),
    ensures
        reads_spec(d, Query::Proxy(s)) == endpoint_writes(d, s, host, port).map_values(
            |w: (Setting, Seq<char>)| w.0,
        ),
        endpoint_read(d, replies, 0) == Ok::<(Seq<char>, u16), Error>((host, port)),
{
    let w = endpoint_writes(d, s, host, port);
    assert(reads_spec(d, Query::Proxy(s)) =~= w.map_values(|x: (Setting, Seq<char>)| x.0));
    lemma_decimal_port(port);
    let dp = decimal(port as nat);
    if d == Desktop::Gnome {
        let v = quoted_host(host);
        assert(reply_holds(replies[0], w[0].1));
        assert(reply_holds(replies[1], w[1].1));
        lemma_trim_fixed(v);
        assert(v.subrange(1, v.len() - 1) =~= host);
    } else {
        assert(reply_holds(replies[0], w[0].1));
        let v = endpoint_text(s, host, port);
        let rest = host + seq![' '] + dp;
        assert(v =~= crate::codec::scheme_of(s) + rest);
        lemma_decimal(port as nat);
        assert(crate::text::is_digit(dp.last()));
        assert(v.last() == dp.last());
        lemma_trim_fixed(v);
        lemma_schemes_lack_space();
        lemma_no_prefix(host, dp, http_scheme());
        lemma_no_prefix(host, dp, socks_scheme());
        if s == Service::Socks {
            assert(v.subrange(0, 8) =~= socks_scheme());
            assert(v.subrange(8, v.len() as int) =~= rest);
            assert(v[0] != http_scheme()[0]);
            assert(!(v.subrange(0, 7) == http_scheme()));
            assert(trim_prefix_all(v, http_scheme()) == v);
            assert(trim_prefix_all(rest, socks_scheme()) == rest);
            assert(trim_prefix_all(v, socks_scheme()) == rest);
        } else {
            assert(v.subrange(0, 7) =~= http_scheme());
            assert(v.subrange(7, v.len() as int) =~= rest);
            assert(trim_prefix_all(rest, http_scheme()) == rest);
            assert(trim_prefix_all(v, http_scheme()) == rest);
            assert(trim_prefix_all(rest, socks_scheme()) == rest);
        }
        lemma_find_after(host, dp, ' ');
        assert(rest.subrange(0, host.len() as int) =~= host);
        assert(rest.subrange(host.len() as int + 1, rest.len() as int) =~= dp);
        assert(split_once_spec(rest, ' ') == Some((host, dp)));
    }
}

proof fn lemma_no_failure<T>(outs: Seq<Result<T, Error>>, n: int)
    requires
        0 <= n <= outs.len(),
        forall|k: int| 0 <= k < n ==> (#[trigger] outs[k]) is Ok,
    ensures
        first_failure(outs.take(n)) is None,
    decreases n,
{
    if n > 0 {
        assert(outs.take(n).drop_last() == outs.take(n - 1));
        lemma_no_failure(outs, n - 1);
    }
}

/// Carrying out commands stops at the first one that fails, with its error:
/// whatever came after it, no further command is run, and nothing is undone.
pub proof fn stops_at_first_failure<T>(total: int, outs: Seq<Result<T, Error>>, j: int)
    requires
        0 <= j < outs.len(),
        outs[j] is Err,
        forall|k: int| 0 <= k < j ==> (#[trigger] outs[k]) is Ok,
    ensures
        step_spec(total, outs) == Step::Failed(outs[j]->Err_0),
{
    lemma_no_failure(outs, j);
    assert(outs.take(j + 1).drop_last() == outs.take(j));
    assert(first_failure(outs.take(j + 1)) == Some(outs[j]->Err_0));
    lemma_first_failure_prefix(outs, j + 1);
}

proof fn lemma_find_none(a: Seq<char>, c: char)
    ensures
        find_char(a, c) is None <==> lacks(a, c),
        find_char(a, c) matches Some(i) ==> 0 <= i < a.len() && a[i] == c,
    decreases a.len(),
{
    if a.len() > 0 {
        lemma_find_none(a.drop_first(), c);
        if a[0] != c && find_char(a.drop_first(), c) is None {
            assert forall|i: int| 0 <= i < a.len() implies a[i] != c by {
                if i > 0 {
                    assert(a[i] == a.drop_first()[i - 1]);
                }
            }
        }
        if a[0] != c && !lacks(a.drop_first(), c) {
            let j = choose|j: int| 0 <= j < a.drop_first().len() && a.drop_first()[j] == c;
            assert(a[j + 1] == c);
        }
    }
}

proof fn lemma_find_extend(a: Seq<char>, x: Seq<char>, c: char)
    requires
        find_char(a, c) is Some,
    ensures
        find_char(a + x, c) == find_char(a, c),
    decreases a.len(),
{
    lemma_find_none(a, c);
    if a[0] != c {
        assert((a + x).drop_first() =~= a.drop_first() + x);
        lemma_find_extend(a.drop_first(), x, c);
    }
}

/// Splitting at a separator that stands between two texts splits each.
proof fn lemma_split_concat(a: Seq<char>, b: Seq<char>, c: char)
    ensures
        split_spec(a + seq![c] + b, c) == split_spec(a, c) + split_spec(b, c),
    decreases a.len(),
{
    let s = a + seq![c] + b;
    lemma_find_none(a, c);
    match find_char(a, c) {
        None => {
            lemma_find_after(a, b, c);
            assert(s.subrange(0, a.len() as int) =~= a);
            assert(s.subrange(a.len() as int + 1, s.len() as int) =~= b);
            assert(split_spec(a, c) == seq![a]);
        },
        Some(i) => {
            lemma_find_extend(a, seq![c] + b, c);
            assert(a + (seq![c] + b) =~= s);
            let rest = a.subrange(i + 1, a.len() as int);
            assert(s.subrange(0, i) =~= a.subrange(0, i));
            assert(s.subrange(i + 1, s.len() as int) =~= rest + seq![c] + b);
            lemma_split_concat(rest, b, c);
            assert(split_spec(s, c) =~= split_spec(a, c) + split_spec(b, c));
        },
    }
}

/// The pieces of a joined list: the first as it was, each other one behind `t`.
pub open spec fn pieces_after(items: Seq<Seq<char>>, t: Seq<char>) -> Seq<Seq<char>> {
    Seq::new(items.len(), |i: int| if i == 0 { items[0] } else { t + items[i] })
}

proof fn lemma_split_join(items: Seq<Seq<char>>, c: char, t: Seq<char>)
    requires
        items.len() > 0,
        lacks(t, c),
        forall|i: int| 0 <= i < items.len() ==> lacks(#[trigger] items[i], c),
    ensures
        split_spec(join_spec(items, seq![c] + t), c) == pieces_after(items, t),
    decreases items.len(),
{
    if items.len() == 1 {
        lemma_find_none(items[0], c);
        assert(split_spec(items[0], c) == seq![items[0]]);
        assert(split_spec(join_spec(items, seq![c] + t), c) =~= pieces_after(items, t));
    } else {
        let front = items.drop_last();
        assert forall|i: int| 0 <= i < front.len() implies lacks(#[trigger] front[i], c) by {
            assert(front[i] == items[i]);
        }
        lemma_split_join(front, c, t);
        let last = t + items.last();
        assert(lacks(items.last(), c));
        assert(lacks(last, c)) by {
            assert forall|i: int| 0 <= i < last.len() implies last[i] != c by {
                if i >= t.len() {
                    assert(last[i] == items.last()[i - t.len()]);
                }
            }
        }
        lemma_find_none(last, c);
        assert(split_spec(last, c) == seq![last]);
        let jf = join_spec(front, seq![c] + t);
        assert(join_spec(items, seq![c] + t) =~= jf + seq![c] + last);
        lemma_split_concat(jf, last, c);
        assert(split_spec(join_spec(items, seq![c] + t), c) =~= pieces_after(items, t));
    }
}

/// An element that a canonical list holds back unchanged: no comma, no white
/// space around it, and no quote mark at either end.
pub open spec fn plain_item(p: Seq<char>) -> bool {
    lacks(p, ',') && trim_ws(p) == p && (p.len() > 0 ==> !quote_mark(p[0]) && !quote_mark(
        p.last(),
    ))
}

proof fn lemma_plain_item(p: Seq<char>)
    requires
        plain_item(p),
    ensures
        quote_item(p) == seq!['\''] + p + seq!['\''],
        trim_ws(quote_item(p)) == quote_item(p),
        trim_ws(seq![' '] + quote_item(p)) == quote_item(p),
        strip_quotes(quote_item(p)) == p,
        lacks(quote_item(p), ','),
        clean_item(p) == p,
{
    let q = seq!['\''] + p + seq!['\''];
    assert(quote_item(p) =~= q);
    lemma_trim_fixed(q);
    let sq = seq![' '] + q;
    assert(sq.drop_first() =~= q);
    assert(trim_start_ws(sq) == trim_start_ws(q));
    assert(trim_start_ws(q) == q);
    assert(trim_end_ws(q) == q);
    assert(q.subrange(1, q.len() - 1) =~= p);
    assert forall|i: int| 0 <= i < q.len() implies q[i] != ',' by {
        if 0 < i < q.len() - 1 {
            assert(q[i] == p[i - 1]);
        }
    }
}

/// Writing a canonical bypass list and reading it back gives the same list,
/// on both desktops, where each element is plain (no comma, no surrounding
/// white space, no quote mark at either end): the settings database holds
/// it bracketed and quoted, the INI-style file verbatim.
pub proof fn bypass_round_trip(d: Desktop, items: Seq<Seq<char>>, reply: Reply)
    requires
        d != Desktop::Unsupported,
        items.len() > 0,
        forall|i: int| 0 <= i < items.len() ==> plain_item(#[trigger] items[i]),
        reply_holds(reply, bypass_writes(d, join_spec(items, seq![',']))[0].1),
    ensures
        reads_spec(d, Query::Bypass) == seq![bypass_writes(d, join_spec(items, seq![',']))[0].0],
        bypass_read(d, seq![reply], 0) == Ok::<Seq<char>, Error>(join_spec(items, seq![','])),
{
    let b = join_spec(items, seq![',']);
    assert(seq![','] + Seq::<char>::empty() =~= seq![',']);
    assert forall|i: int| 0 <= i < items.len() implies lacks(#[trigger] items[i], ',') by {
        assert(plain_item(items[i]));
    }
    lemma_split_join(items, ',', Seq::empty());
    let parts = split_spec(b, ',');
    assert forall|i: int| 0 <= i < items.len() implies #[trigger] pieces_after(items, Seq::empty())[i] == items[i] by {
        assert(Seq::<char>::empty() + items[i] =~= items[i]);
    }
    assert(parts =~= items);
    assert forall|i: int| 0 <= i < items.len() implies clean_item(#[trigger] items[i]) == items[i] by {
        lemma_plain_item(items[i]);
    }
    if d == Desktop::Kde {
        assert(parts.map_values(|p: Seq<char>| clean_item(p)) =~= items);
    } else {
        let m = items.map_values(|p: Seq<char>| quote_item(p));
        assert(parts.map_values(|p: Seq<char>| quote_item(trim_ws(p))) =~= m);
        let inner = join_spec(m, seq![',', ' ']);
        let w = seq!['['] + inner + seq![']'];
        assert(bypass_writes(d, b)[0].1 == w);
        assert(w.subrange(1, w.len() - 1) =~= inner);
        assert forall|i: int| 0 <= i < m.len() implies lacks(#[trigger] m[i], ',') by {
            lemma_plain_item(items[i]);
        }
        assert(seq![','] + seq![' '] =~= seq![',', ' ']);
        lemma_split_join(m, ',', seq![' ']);
        let pieces = pieces_after(m, seq![' ']);
        assert forall|i: int| 0 <= i < items.len() implies clean_item(#[trigger] pieces[i]) == items[i] by {
            lemma_plain_item(items[i]);
        }
        assert(pieces.map_values(|p: Seq<char>| clean_item(p)) =~= items);
    }
}

/// `strip_str` is idempotent on every input that is not quoted twice over
/// (`''a''` loses one pair per application).
pub proof fn strip_quotes_idempotent(s: Seq<char>)
    requires
        !(quoted(s) && quoted(strip_quotes(s))),
    ensures
        strip_quotes(strip_quotes(s)) == strip_quotes(s),
{
}

/// On an unsupported desktop every read and every write fails with
/// `NotSupport`, whatever the replies, and no command is built: nothing
/// reaches a store.
pub proof fn unsupported_refused(
    signal: Option<Seq<char>>,
    q: Query,
    replies: Seq<Reply>,
    writes: Seq<(Setting, Seq<char>)>,
    config: Seq<char>,
    k: Setting,
    value: Option<Seq<char>>,
)
    requires
        signal matches Some(s) ==> s != "GNOME"@ && s != "KDE"@,
    ensures
        desktop_of(signal) == Desktop::Unsupported,
        enable_read(desktop_of(signal), replies, 0) == Err::<bool, Error>(Error::NotSupport),
        bypass_read(desktop_of(signal), replies, 0) == Err::<Seq<char>, Error>(Error::NotSupport),
        proxy_read(desktop_of(signal), replies) is Err && proxy_read(desktop_of(signal), replies)->Err_0
            == Error::NotSupport,
        system_read(desktop_of(signal), replies) is Err && system_read(desktop_of(signal), replies)->Err_0
            == Error::NotSupport,
        plan_for(desktop_of(signal), writes) == Err::<Seq<(Setting, Seq<char>)>, Error>(
            Error::NotSupport,
        ),
        command_spec(desktop_of(signal), config, k, value) is Err && command_spec(
            desktop_of(signal),
            config,
            k,
            value,
        )->Err_0 == Error::NotSupport,
{
}

} // verus!
