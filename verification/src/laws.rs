//! Properties that span the library's operations: what reading back gives of
//! what was written.

use vstd::prelude::*;

use crate::desktop::{CommandView, DesktopView, kwriteconfig_program};
use crate::linux::{
    ProxyOutput, Service, auto_mode, auto_proxy_plan, auto_reading, bypass_reading, chosen_service, enable_plan,
    enable_reading, read_system_proxy, gnome_auto_value,
    gnome_mode_value, kde_auto_value, kde_mode_value, manual_mode, system_proxy_plan, gvariant_list, kde_address, kde_proxy_value,
    proxy_reading, quoted, read_bypass, read_text, service_settings, strip_first,
    strip_last,
};
use crate::sysproxy::{
    AutoSettings, Autoproxy, Error, ProxySettings, Sysproxy, address_settings,
};
use crate::text::{
    decimal, decimal_value, digit_value, escape_quotes, is_digit, is_ws, join, lemma_split_concat,
    lemma_split_no_sep, lemma_split_nonempty, lemma_split_pieces, parse_u16_spec,
    split_on, split_once_spec, strip_all_prefix, strip_quotes, trim, trim_left, trim_right,
    unsigned_digits,
};

verus! {

proof fn lemma_decimal_digits(n: nat)
    ensures
        decimal(n).len() >= 1,
        forall|i: int| 0 <= i < decimal(n).len() ==> is_digit(#[trigger] decimal(n)[i]),
        decimal_value(decimal(n)) == n,
    decreases n,
{
    if n < 10 {
        let c = ((n + 48) as u32) as char;
        assert((c as u32) == n + 48);
        assert(decimal(n).drop_last() =~= seq![]);
        assert(decimal_value(seq![]) == 0);
        assert(digit_value(c) == n);
    } else {
        lemma_decimal_digits(n / 10);
        let c = (((n % 10) + 48) as u32) as char;
        assert((c as u32) == (n % 10) + 48);
        assert(decimal(n).drop_last() =~= decimal(n / 10));
        assert(digit_value(c) == n % 10);
        assert((n / 10) * 10 + n % 10 == n) by (nonlinear_arith);
    }
}

/// The port text that a write gives parses back to the port.
pub proof fn law_port_text_round_trip(port: u16)
    ensures
        parse_u16_spec(decimal(port as nat)) == Some(port),
        trim(decimal(port as nat)) == decimal(port as nat),
{
    let d = decimal(port as nat);
    lemma_decimal_digits(port as nat);
    assert(is_digit(d[0]));
    assert(unsigned_digits(d) == d);
    assert(is_digit(d.last()));
    assert(trim_left(d) == d);
    assert(trim_right(d) == d);
}

proof fn lemma_contains_concat(a: Seq<char>, b: Seq<char>, x: char)
    requires
        !a.contains(x),
        !b.contains(x),
    ensures
        !(a + b).contains(x),
{
    if (a + b).contains(x) {
        let k = choose|k: int| 0 <= k < (a + b).len() && (a + b)[k] == x;
        if k < a.len() {
            assert(a[k] == x);
        } else {
            assert(b[k - a.len()] == x);
        }
    }
}

/// The settings that enabling at an address `host:port` writes, where the
/// port is written in decimal, are that host and port, whatever the host
/// holds (the address is split at its last `:`).
pub proof fn law_enable_address(host: Seq<char>, port: u16)
    ensures
        address_settings(host + seq![':'] + decimal(port as nat)) == Some(
            ProxySettings { enable: true, host, port, bypass: seq![] },
        ),
{
    let d = decimal(port as nat);
    let s = host + seq![':'] + d;
    lemma_decimal_digits(port as nat);
    law_port_text_round_trip(port);
    s.index_of_last_ensures(':');
    assert(s[host.len() as int] == ':');
    let k = s.index_of_last(':')->0;
    if k > host.len() {
        assert(s[k] == d[k - host.len() - 1]);
        assert(is_digit(d[k - host.len() - 1]));
    }
    assert(k == host.len());
    assert(s.take(k) =~= host);
    assert(s.skip(k + 1) =~= d);
}

proof fn lemma_strip_quotes_plain(s: Seq<char>)
    requires
        !s.contains('\''),
    ensures
        strip_quotes(s) == s,
{
    if s.len() > 0 {
        assert(s[0] != '\'');
        assert(s[s.len() - 1] != '\'');
    }
}

proof fn lemma_escape_plain(s: Seq<char>)
    requires
        !s.contains('\''),
    ensures
        escape_quotes(s) == s,
    decreases s.len(),
{
    if s.len() > 0 {
        assert(!s.drop_last().contains('\'')) by {
            if s.drop_last().contains('\'') {
                let k = choose|k: int| 0 <= k < s.drop_last().len() && s.drop_last()[k] == '\'';
                assert(s[k] == '\'');
            }
        }
        lemma_escape_plain(s.drop_last());
        assert(s.last() != '\'');
        assert(s.drop_last() + seq![s.last()] =~= s);
    } else {
        assert(s =~= seq![]);
    }
}

proof fn lemma_trim_left_within(s: Seq<char>, x: char)
    requires
        !s.contains(x),
    ensures
        !trim_left(s).contains(x),
    decreases s.len(),
{
    if s.len() > 0 && is_ws(s[0]) {
        assert(!s.drop_first().contains(x)) by {
            if s.drop_first().contains(x) {
                let k = choose|k: int| 0 <= k < s.drop_first().len() && s.drop_first()[k] == x;
                assert(s[k + 1] == x);
            }
        }
        lemma_trim_left_within(s.drop_first(), x);
    }
}

proof fn lemma_trim_right_within(s: Seq<char>, x: char)
    requires
        !s.contains(x),
    ensures
        !trim_right(s).contains(x),
    decreases s.len(),
{
    if s.len() > 0 && is_ws(s.last()) {
        assert(!s.drop_last().contains(x)) by {
            if s.drop_last().contains(x) {
                let k = choose|k: int| 0 <= k < s.drop_last().len() && s.drop_last()[k] == x;
                assert(s[k] == x);
            }
        }
        lemma_trim_right_within(s.drop_last(), x);
    }
}

/// Trimming adds no character.
proof fn lemma_trim_within(s: Seq<char>, x: char)
    requires
        !s.contains(x),
    ensures
        !trim(s).contains(x),
{
    lemma_trim_left_within(s, x);
    lemma_trim_right_within(trim_left(s), x);
}

/// The pieces of a text hold no character that the text does not hold.
proof fn lemma_split_within(s: Seq<char>, c: char, x: char)
    requires
        !s.contains(x),
    ensures
        forall|i: int| 0 <= i < split_on(s, c).len() ==> !(#[trigger] split_on(s, c)[i]).contains(x),
    decreases s.len(),
{
    if s.len() > 0 {
        assert(!s.drop_first().contains(x)) by {
            if s.drop_first().contains(x) {
                let k = choose|k: int| 0 <= k < s.drop_first().len() && s.drop_first()[k] == x;
                assert(s[k + 1] == x);
            }
        }
        lemma_split_within(s.drop_first(), c, x);
        lemma_split_nonempty(s.drop_first(), c);
        let rest = split_on(s.drop_first(), c);
        if s[0] != c {
            assert(s[0] != x);
            lemma_contains_concat(seq![s[0]], rest[0], x);
        }
        assert forall|i: int| 0 <= i < split_on(s, c).len() implies !(#[trigger] split_on(
            s,
            c,
        )[i]).contains(x) by {
            if s[0] == c {
                if i > 0 {
                    assert(split_on(s, c)[i] == rest[i - 1]);
                } else {
                    assert(split_on(s, c)[i] =~= seq![]);
                }
            } else {
                if i > 0 {
                    assert(split_on(s, c)[i] == rest[i]);
                }
            }
        }
    }
}

/// The pieces `q`, each but the first preceded by `w`.
pub open spec fn continued(q: Seq<Seq<char>>, w: Seq<char>) -> Seq<Seq<char>> {
    Seq::new(
        q.len(),
        |i: int|
            if i == 0 {
                q[0]
            } else {
                w + q[i]
            },
    )
}

/// Splitting pieces joined at `c` followed by `w` gives the pieces back, each
/// but the first preceded by `w`, where neither the pieces nor `w` hold `c`.
proof fn lemma_split_join(q: Seq<Seq<char>>, c: char, w: Seq<char>)
    requires
        q.len() >= 1,
        forall|i: int| 0 <= i < q.len() ==> !(#[trigger] q[i]).contains(c),
        !w.contains(c),
    ensures
        split_on(join(q, seq![c] + w), c) == continued(q, w),
    decreases q.len(),
{
    if q.len() == 1 {
        lemma_split_no_sep(q[0], c);
        assert(continued(q, w) =~= seq![q[0]]);
    } else {
        let qs = q.drop_last();
        let last = q.last();
        assert(!last.contains(c));
        lemma_split_join(qs, c, w);
        lemma_contains_concat(w, last, c);
        lemma_split_no_sep(w + last, c);
        assert(join(q, seq![c] + w) =~= join(qs, seq![c] + w) + seq![c] + (w + last));
        lemma_split_concat(join(qs, seq![c] + w), w + last, c);
        assert(continued(qs, w).push(w + last) =~= continued(q, w));
    }
}

/// A bypass list with its entries trimmed: what reading back a written list gives.
pub open spec fn trimmed_entries(b: Seq<char>) -> Seq<char> {
    join(split_on(b, ',').map_values(|h: Seq<char>| trim(h)), seq![','])
}

proof fn lemma_quoted_reads_back(y: Seq<char>)
    requires
        !y.contains('\''),
    ensures
        strip_quotes(trim(quoted(y))) == y,
        strip_quotes(trim(seq![' '] + quoted(y))) == y,
{
    let q = quoted(y);
    lemma_escape_plain(y);
    assert(q[0] == '\'');
    assert(q.last() == '\'');
    assert(trim_left(q) == q);
    assert(trim_right(q) == q);
    assert((seq![' '] + q).drop_first() =~= q);
    assert(is_ws(' '));
    assert(trim_left(seq![' '] + q) == trim_left(q));
    assert(q.drop_first().drop_last() =~= y);
}

/// Reading back, on GNOME, the bypass list that a write gives (the GVariant
/// list of `gvariant_list`) yields the written entries, trimmed, joined with
/// commas, where the list holds no single quote.
pub proof fn law_gnome_bypass_read_back(b: Seq<char>)
    requires
        !b.contains('\''),
    ensures
        read_bypass(false, gvariant_list(b)) == trimmed_entries(b),
{
    let parts = split_on(b, ',');
    let qs = parts.map_values(|h: Seq<char>| quoted(trim(h)));
    let sep = seq![','] + seq![' '];
    let jn = join(qs, seq![',', ' ']);
    lemma_split_nonempty(b, ',');
    lemma_split_pieces(b, ',');
    lemma_split_within(b, ',', '\'');
    assert(seq![',', ' '] =~= sep);
    assert forall|i: int| 0 <= i < qs.len() implies !(#[trigger] qs[i]).contains(',') by {
        let y = trim(parts[i]);
        lemma_trim_within(parts[i], ',');
        lemma_trim_within(parts[i], '\'');
        lemma_escape_plain(y);
        lemma_contains_concat(seq!['\''], y, ',');
        lemma_contains_concat(seq!['\''] + y, seq!['\''], ',');
    }
    assert(!seq![' '].contains(','));
    lemma_split_join(qs, ',', seq![' ']);
    let gv = gvariant_list(b);
    assert(strip_first(gv, '[') =~= jn + seq![']']);
    assert(strip_last(jn + seq![']'], ']') =~= jn);
    let pieces = split_on(jn, ',');
    assert(pieces == continued(qs, seq![' ']));
    assert(pieces.map_values(|h: Seq<char>| strip_quotes(trim(h))) =~= parts.map_values(
        |h: Seq<char>| trim(h),
    )) by {
        assert forall|i: int| 0 <= i < parts.len() implies strip_quotes(trim(#[trigger] pieces[i]))
            == trim(parts[i]) by {
            lemma_trim_within(parts[i], '\'');
            lemma_quoted_reads_back(trim(parts[i]));
        }
    }
}

/// Reading back, on KDE, the bypass list as written yields the written
/// entries, trimmed, joined with commas, where the list holds no single quote:
/// the same as on GNOME.
pub proof fn law_kde_bypass_read_back(b: Seq<char>)
    requires
        !b.contains('\''),
    ensures
        read_bypass(true, b) == trimmed_entries(b),
        read_bypass(true, b) == read_bypass(false, gvariant_list(b)),
{
    let parts = split_on(b, ',');
    lemma_split_within(b, ',', '\'');
    assert(parts.map_values(|h: Seq<char>| strip_quotes(trim(h))) =~= parts.map_values(
        |h: Seq<char>| trim(h),
    )) by {
        assert forall|i: int| 0 <= i < parts.len() implies strip_quotes(trim(#[trigger] parts[i]))
            == trim(parts[i]) by {
            lemma_trim_within(parts[i], '\'');
            lemma_strip_quotes_plain(trim(parts[i]));
        }
    }
    law_gnome_bypass_read_back(b);
}

/// Reading back, on GNOME, a service's host and port as written (the host
/// quoted, the port in decimal) gives that host and port, where the host
/// holds no single quote.
pub proof fn law_gnome_proxy_read_back(
    output: ProxyOutput,
    r: Result<Sysproxy, Error>,
    host: Seq<char>,
    port: u16,
)
    requires
        output matches ProxyOutput::Gnome { host: h, port: p } && read_text(h@) == Some(quoted(host))
            && read_text(p@) == Some(decimal(port as nat)),
        !host.contains('\''),
        proxy_reading(output, r),
    ensures
        r matches Ok(x) && x@ == service_settings(host, port),
{
    lemma_quoted_reads_back(host);
    law_port_text_round_trip(port);
}

proof fn lemma_strip_absent(s: Seq<char>, p: Seq<char>)
    requires
        !p.is_prefix_of(s),
    ensures
        strip_all_prefix(s, p) == s,
{
}

proof fn lemma_strip_present(p: Seq<char>, rest: Seq<char>)
    requires
        p.len() > 0,
    ensures
        strip_all_prefix(p + rest, p) == strip_all_prefix(rest, p),
{
    assert(p.is_prefix_of(p + rest));
    assert((p + rest).skip(p.len() as int) =~= rest);
}

/// A scheme prefix `w://` does not start `host:digits` where the host has no `:`.
proof fn lemma_no_scheme_prefix(w: Seq<char>, host: Seq<char>, d: Seq<char>)
    requires
        !host.contains(':'),
        d.len() >= 1,
        forall|i: int| 0 <= i < d.len() ==> is_digit(#[trigger] d[i]),
    ensures
        !(w + seq![':', '/', '/']).is_prefix_of(host + seq![':'] + d),
{
    let p = w + seq![':', '/', '/'];
    let a = host + seq![':'] + d;
    if p.is_prefix_of(a) {
        let k = w.len() as int;
        assert(p[k] == ':');
        assert(a[k] == ':');
        if k < host.len() {
            assert(host[k] == ':');
        } else if k > host.len() {
            assert(a[k] == d[k - host.len() - 1]);
            assert(is_digit(d[k - host.len() - 1]));
        } else {
            assert(p[k + 1] == '/');
            assert(a[k + 1] == d[0]);
            assert(is_digit(d[0]));
        }
    }
}

proof fn lemma_split_once_at(host: Seq<char>, d: Seq<char>)
    requires
        !host.contains(':'),
    ensures
        split_once_spec(host + seq![':'] + d, ':') == Some((host, d)),
{
    let s = host + seq![':'] + d;
    s.index_of_first_ensures(':');
    assert(s[host.len() as int] == ':');
    let k = s.index_of_first(':')->0;
    if k < host.len() {
        assert(host[k] == ':');
    }
    assert(k == host.len());
    assert(s.take(k) =~= host);
    assert(s.skip(k + 1) =~= d);
}

/// Reading back, on KDE, a service's entry as written (`scheme://host:port`)
/// gives that host and port, where the host holds neither `:` nor a single quote.
pub proof fn law_kde_proxy_read_back(
    output: ProxyOutput,
    r: Result<Sysproxy, Error>,
    service: Service,
    host: Seq<char>,
    port: u16,
)
    requires
        output matches ProxyOutput::Kde { value } && read_text(value@) == Some(
            kde_proxy_value(service, host, port),
        ),
        !host.contains(':'),
        !host.contains('\''),
        proxy_reading(output, r),
    ensures
        r matches Ok(x) && x@ == service_settings(host, port),
{
    reveal_strlit("http://");
    reveal_strlit("https://");
    reveal_strlit("socks://");
    reveal_strlit("socks5://");
    let http = seq!['h', 't', 't', 'p'];
    let https = seq!['h', 't', 't', 'p', 's'];
    let socks = seq!['s', 'o', 'c', 'k', 's'];
    let socks5 = seq!['s', 'o', 'c', 'k', 's', '5'];
    let slash = seq![':', '/', '/'];
    assert("http://"@ =~= http + slash);
    assert("https://"@ =~= https + slash);
    assert("socks://"@ =~= socks + slash);
    assert("socks5://"@ =~= socks5 + slash);
    let d = decimal(port as nat);
    lemma_decimal_digits(port as nat);
    law_port_text_round_trip(port);
    let a = host + seq![':'] + d;
    let t = kde_proxy_value(service, host, port);
    lemma_no_scheme_prefix(http, host, d);
    lemma_no_scheme_prefix(https, host, d);
    lemma_no_scheme_prefix(socks, host, d);
    lemma_no_scheme_prefix(socks5, host, d);
    lemma_strip_absent(a, http + slash);
    lemma_strip_absent(a, https + slash);
    lemma_strip_absent(a, socks + slash);
    lemma_strip_absent(a, socks5 + slash);
    match service {
        Service::Socks => {
            assert(t =~= (socks + slash) + a);
            assert(!(http + slash).is_prefix_of(t)) by {
                assert(t[0] != (http + slash)[0]);
            }
            assert(!(https + slash).is_prefix_of(t)) by {
                assert(t[0] != (https + slash)[0]);
            }
            lemma_strip_absent(t, http + slash);
            lemma_strip_absent(t, https + slash);
            lemma_strip_present(socks + slash, a);
        },
        _ => {
            assert(t =~= (http + slash) + a);
            lemma_strip_present(http + slash, a);
        },
    }
    lemma_split_once_at(host, d);
    assert(kde_address(t) == Some((host, d)));
    lemma_strip_quotes_plain(host);
    assert(t.len() > 0);
}

/// Reading back the proxy mode as written tells whether the proxy was
/// enabled, for the manual and for the automatic proxy, on GNOME and on KDE.
pub proof fn law_mode_read_back(enable: bool)
    ensures
        (gnome_mode_value(enable) == manual_mode(false)) == enable,
        (kde_mode_value(enable) == manual_mode(true)) == enable,
        (gnome_auto_value(enable) == auto_mode(false)) == enable,
        (kde_auto_value(enable) == auto_mode(true)) == enable,
{
    reveal_strlit("'manual'");
    reveal_strlit("'none'");
    reveal_strlit("'auto'");
    reveal_strlit("1");
    reveal_strlit("0");
    reveal_strlit("2");
    if !enable {
        assert("'none'"@.len() != "'manual'"@.len());
        assert("'none'"@[1] != "'auto'"@[1]);
        assert("0"@[0] != "1"@[0]);
        assert("0"@[0] != "2"@[0]);
    }
}

/// Writing the whole manual proxy begins with exactly the writes of the
/// enabled flag, which are all that disabling writes; the rest writes host,
/// port and bypass list.
pub proof fn law_flag_writes_lead(d: DesktopView, p: ProxySettings)
    ensures
        system_proxy_plan(d, p).take(enable_plan(d, p.enable).len() as int) == enable_plan(
            d,
            p.enable,
        ),
{
    let k = enable_plan(d, p.enable).len() as int;
    assert(system_proxy_plan(d, p).take(k) =~= enable_plan(d, p.enable));
}

/// Reading back the automatic proxy as written gives it back: the mode tells
/// whether it was enabled, and the URL comes back as written (GNOME prints it
/// quoted), where the URL holds no single quote.
pub proof fn law_auto_proxy_read_back(
    kde: bool,
    mode_output: Seq<u8>,
    url_output: Seq<u8>,
    r: Result<Autoproxy, Error>,
    enable: bool,
    url: Seq<char>,
)
    requires
        read_text(mode_output) == Some(
            if kde {
                kde_auto_value(enable)
            } else {
                gnome_auto_value(enable)
            },
        ),
        read_text(url_output) == Some(
            if kde {
                url
            } else {
                quoted(url)
            },
        ),
        !url.contains('\''),
        auto_reading(kde, mode_output, url_output, r),
    ensures
        r matches Ok(a) && a@ == (AutoSettings { enable, url }),
{
    law_mode_read_back(enable);
    lemma_quoted_reads_back(url);
    lemma_quoted_trimmed(url);
}

proof fn lemma_quoted_trimmed(y: Seq<char>)
    ensures
        trim(quoted(y)) == quoted(y),
{
    let q = quoted(y);
    assert(q[0] == '\'');
    assert(q.last() == '\'');
    assert(trim_left(q) == q);
    assert(trim_right(q) == q);
}

/// Where the three services read back alike, the system proxy reads back as
/// that service.
pub proof fn law_services_read_alike(x: ProxySettings)
    ensures
        chosen_service(x, x, x) == x,
{
}

/// Trimming the text before splitting it changes no trimmed piece: white
/// space at the front.
proof fn lemma_trim_left_split(s: Seq<char>, c: char)
    requires
        !is_ws(c),
    ensures
        split_on(trim_left(s), c).map_values(|h: Seq<char>| trim(h)) == split_on(s, c).map_values(
            |h: Seq<char>| trim(h),
        ),
    decreases s.len(),
{
    if s.len() > 0 && is_ws(s[0]) {
        lemma_trim_left_split(s.drop_first(), c);
        lemma_split_nonempty(s.drop_first(), c);
        let rest = split_on(s.drop_first(), c);
        assert(s[0] != c);
        let first = seq![s[0]] + rest[0];
        assert(first.drop_first() =~= rest[0]);
        assert(trim_left(first) == trim_left(rest[0]));
        assert(split_on(s, c).map_values(|h: Seq<char>| trim(h)) =~= rest.map_values(
            |h: Seq<char>| trim(h),
        ));
    }
}

/// Text without the separator appended to the text lengthens the last piece.
proof fn lemma_split_append(a: Seq<char>, b: Seq<char>, c: char)
    requires
        !b.contains(c),
    ensures
        split_on(a + b, c) == split_on(a, c).update(
            split_on(a, c).len() - 1,
            split_on(a, c).last() + b,
        ),
    decreases a.len(),
{
    lemma_split_nonempty(a, c);
    if a.len() == 0 {
        assert(a + b =~= b);
        lemma_split_no_sep(b, c);
        assert(split_on(a, c) =~= seq![seq![]]);
        assert(seq![] + b =~= b);
        assert(split_on(a + b, c) =~= split_on(a, c).update(0, split_on(a, c).last() + b));
    } else {
        let a1 = a.drop_first();
        assert((a + b).drop_first() =~= a1 + b);
        lemma_split_append(a1, b, c);
        lemma_split_nonempty(a1, c);
        let p = split_on(a1, c);
        if a[0] == c {
            assert(split_on(a + b, c) =~= split_on(a, c).update(
                split_on(a, c).len() - 1,
                split_on(a, c).last() + b,
            ));
        } else {
            if p.len() == 1 {
                assert(seq![a[0]] + (p[0] + b) =~= (seq![a[0]] + p[0]) + b);
            }
            assert(split_on(a + b, c) =~= split_on(a, c).update(
                split_on(a, c).len() - 1,
                split_on(a, c).last() + b,
            ));
        }
    }
}

proof fn lemma_trim_left_push_ws(p: Seq<char>, w: char)
    requires
        is_ws(w),
    ensures
        trim_left(p.push(w)) == if trim_left(p).len() > 0 {
            trim_left(p).push(w)
        } else {
            seq![]
        },
    decreases p.len(),
{
    if p.len() == 0 {
        assert(p.push(w).drop_first() =~= seq![]);
        assert(trim_left(seq![]) == Seq::<char>::empty());
    } else if is_ws(p[0]) {
        assert(p.push(w).drop_first() =~= p.drop_first().push(w));
        lemma_trim_left_push_ws(p.drop_first(), w);
    }
}

/// Trailing white space does not change a trimmed piece.
proof fn lemma_trim_push_ws(p: Seq<char>, w: char)
    requires
        is_ws(w),
    ensures
        trim(p.push(w)) == trim(p),
{
    lemma_trim_left_push_ws(p, w);
    let t = trim_left(p);
    if t.len() > 0 {
        assert(t.push(w).drop_last() =~= t);
    } else {
        assert(t =~= seq![]);
    }
}

/// Trimming the text before splitting it changes no trimmed piece: white
/// space at the end.
proof fn lemma_trim_right_split(s: Seq<char>, c: char)
    requires
        !is_ws(c),
    ensures
        split_on(trim_right(s), c).map_values(|h: Seq<char>| trim(h)) == split_on(
            s,
            c,
        ).map_values(|h: Seq<char>| trim(h)),
    decreases s.len(),
{
    if s.len() > 0 && is_ws(s.last()) {
        let s1 = s.drop_last();
        let w = s.last();
        lemma_trim_right_split(s1, c);
        assert(!seq![w].contains(c)) by {
            if seq![w].contains(c) {
                assert(seq![w][0] == c);
            }
        }
        assert(s1 + seq![w] =~= s);
        lemma_split_append(s1, seq![w], c);
        lemma_split_nonempty(s1, c);
        let p = split_on(s1, c);
        assert(p.last() + seq![w] =~= p.last().push(w));
        lemma_trim_push_ws(p.last(), w);
        assert(split_on(s, c).map_values(|h: Seq<char>| trim(h)) =~= p.map_values(
            |h: Seq<char>| trim(h),
        ));
    }
}

/// Reading back, on KDE, a bypass list as the tool gives it back (trimmed)
/// yields the written entries, trimmed, joined with commas, where the list
/// holds no single quote: white space at the ends of the list does not matter.
pub proof fn law_kde_bypass_read_back_trimmed(b: Seq<char>)
    requires
        !b.contains('\''),
    ensures
        read_bypass(true, trim(b)) == trimmed_entries(b),
{
    let t = trim(b);
    lemma_trim_within(b, '\'');
    law_kde_bypass_read_back(t);
    assert(!is_ws(','));
    lemma_trim_left_split(b, ',');
    lemma_trim_right_split(trim_left(b), ',');
}

/// Whether the outputs of a service's proxy query give back what was written
/// for it: on KDE the entry `scheme://host:port`, on GNOME the quoted host and
/// the decimal port.
pub open spec fn proxy_written_back(
    kde: bool,
    output: ProxyOutput,
    s: Service,
    host: Seq<char>,
    port: u16,
) -> bool {
    if kde {
        output matches ProxyOutput::Kde { value } && read_text(value@) == Some(
            kde_proxy_value(s, host, port),
        )
    } else {
        output matches ProxyOutput::Gnome { host: h, port: p } && read_text(h@) == Some(
            quoted(host),
        ) && read_text(p@) == Some(decimal(port as nat))
    }
}

/// Reading back the whole manual proxy after it was written, where each query
/// gives back what was written for it, yields the settings written: the
/// enabled flag, the host and port, and the bypass list with its entries
/// trimmed; where the host holds neither `:` nor a single quote and the bypass
/// list no single quote.
pub proof fn law_system_proxy_read_back(
    kde: bool,
    p: ProxySettings,
    mode_output: Seq<u8>,
    socks_output: ProxyOutput,
    https_output: ProxyOutput,
    http_output: ProxyOutput,
    bypass_output: Seq<u8>,
    enable: Result<bool, Error>,
    socks: Result<Sysproxy, Error>,
    https: Result<Sysproxy, Error>,
    http: Result<Sysproxy, Error>,
    bypass: Result<String, Error>,
)
    requires
        !p.host.contains(':'),
        !p.host.contains('\''),
        !p.bypass.contains('\''),
        read_text(mode_output) == Some(
            if kde {
                kde_mode_value(p.enable)
            } else {
                gnome_mode_value(p.enable)
            },
        ),
        proxy_written_back(kde, socks_output, Service::Socks, p.host, p.port),
        proxy_written_back(kde, https_output, Service::Https, p.host, p.port),
        proxy_written_back(kde, http_output, Service::Http, p.host, p.port),
        read_text(bypass_output) == Some(
            if kde {
                trim(p.bypass)
            } else {
                gvariant_list(p.bypass)
            },
        ),
        enable_reading(kde, mode_output, enable),
        proxy_reading(socks_output, socks),
        proxy_reading(https_output, https),
        proxy_reading(http_output, http),
        bypass_reading(kde, bypass_output, bypass),
    ensures
        enable == Ok::<bool, Error>(p.enable),
        socks matches Ok(x) && x@ == service_settings(p.host, p.port),
        https matches Ok(x) && x@ == service_settings(p.host, p.port),
        http matches Ok(x) && x@ == service_settings(p.host, p.port),
        bypass matches Ok(b) && b@ == trimmed_entries(p.bypass),
        read_system_proxy(
            p.enable,
            service_settings(p.host, p.port),
            service_settings(p.host, p.port),
            service_settings(p.host, p.port),
            Some(trimmed_entries(p.bypass)),
        ) == (ProxySettings {
            enable: p.enable,
            host: p.host,
            port: p.port,
            bypass: trimmed_entries(p.bypass),
        }),
{
    law_mode_read_back(p.enable);
    if kde {
        law_kde_proxy_read_back(socks_output, socks, Service::Socks, p.host, p.port);
        law_kde_proxy_read_back(https_output, https, Service::Https, p.host, p.port);
        law_kde_proxy_read_back(http_output, http, Service::Http, p.host, p.port);
        law_kde_bypass_read_back_trimmed(p.bypass);
    } else {
        law_gnome_proxy_read_back(socks_output, socks, p.host, p.port);
        law_gnome_proxy_read_back(https_output, https, p.host, p.port);
        law_gnome_proxy_read_back(http_output, http, p.host, p.port);
        law_gnome_bypass_read_back(p.bypass);
    }
    law_services_read_alike(service_settings(p.host, p.port));
}

// ---------------------------------------------------------------------------
// What the operations are for, stated over their inputs and results
// ---------------------------------------------------------------------------

/// The system proxy read takes the SOCKS host and port where the SOCKS
/// reading has a host; else the HTTP ones where the HTTP reading has a host,
/// whatever the HTTPS reading holds; else the HTTPS ones where it has a host;
/// else the SOCKS ones. The enabled flag and the bypass list are those read.
pub proof fn law_system_proxy_choice(
    enable: bool,
    socks: ProxySettings,
    https: ProxySettings,
    http: ProxySettings,
    bypass: Option<Seq<char>>,
)
    ensures
        ({
            let r = read_system_proxy(enable, socks, https, http, bypass);
            &&& r.enable == enable
            &&& r.bypass == (match bypass {
                Some(b) => b,
                None => seq![],
            })
            &&& socks.host.len() > 0 ==> r.host == socks.host && r.port == socks.port
            &&& socks.host.len() == 0 && http.host.len() > 0 ==> r.host == http.host && r.port
                == http.port
            &&& socks.host.len() == 0 && http.host.len() == 0 && https.host.len() > 0 ==> r.host
                == https.host && r.port == https.port
            &&& socks.host.len() == 0 && http.host.len() == 0 && https.host.len() == 0 ==> r.host
                .len() == 0 && r.port == socks.port
        }),
{
    if socks.host.len() == 0 {
        assert(socks.host =~= seq![]);
    }
}

/// A KDE entry `scheme://host:port`, with the scheme any of `http`, `https`,
/// `socks` and `socks5`, reads as that host and port (disabled, no bypass
/// list), where the host holds neither `:` nor a single quote.
pub proof fn law_kde_entry_any_scheme(
    output: ProxyOutput,
    r: Result<Sysproxy, Error>,
    scheme: Seq<char>,
    host: Seq<char>,
    port: u16,
)
    requires
        scheme == seq!['h', 't', 't', 'p'] || scheme == seq!['h', 't', 't', 'p', 's'] || scheme
            == seq!['s', 'o', 'c', 'k', 's'] || scheme == seq!['s', 'o', 'c', 'k', 's', '5'],
        output matches ProxyOutput::Kde { value } && read_text(value@) == Some(
            scheme + seq![':', '/', '/'] + host + seq![':'] + decimal(port as nat),
        ),
        !host.contains(':'),
        !host.contains('\''),
        proxy_reading(output, r),
    ensures
        r matches Ok(x) && x.host@ == host && x.port == port && !x.enable && x.bypass@.len() == 0,
{
    reveal_strlit("http://");
    reveal_strlit("https://");
    reveal_strlit("socks://");
    reveal_strlit("socks5://");
    let http = seq!['h', 't', 't', 'p'];
    let https = seq!['h', 't', 't', 'p', 's'];
    let socks = seq!['s', 'o', 'c', 'k', 's'];
    let socks5 = seq!['s', 'o', 'c', 'k', 's', '5'];
    let slash = seq![':', '/', '/'];
    assert("http://"@ =~= http + slash);
    assert("https://"@ =~= https + slash);
    assert("socks://"@ =~= socks + slash);
    assert("socks5://"@ =~= socks5 + slash);
    let d = decimal(port as nat);
    lemma_decimal_digits(port as nat);
    law_port_text_round_trip(port);
    let a = host + seq![':'] + d;
    let t = scheme + slash + host + seq![':'] + d;
    assert(t =~= (scheme + slash) + a);
    lemma_no_scheme_prefix(http, host, d);
    lemma_no_scheme_prefix(https, host, d);
    lemma_no_scheme_prefix(socks, host, d);
    lemma_no_scheme_prefix(socks5, host, d);
    lemma_strip_absent(a, http + slash);
    lemma_strip_absent(a, https + slash);
    lemma_strip_absent(a, socks + slash);
    lemma_strip_absent(a, socks5 + slash);
    if scheme == http {
        lemma_strip_present(http + slash, a);
    } else if scheme == https {
        assert(!(http + slash).is_prefix_of(t)) by {
            assert(t[4] != (http + slash)[4]);
        }
        lemma_strip_absent(t, http + slash);
        lemma_strip_present(https + slash, a);
    } else if scheme == socks {
        assert(!(http + slash).is_prefix_of(t)) by {
            assert(t[0] != (http + slash)[0]);
        }
        assert(!(https + slash).is_prefix_of(t)) by {
            assert(t[0] != (https + slash)[0]);
        }
        lemma_strip_absent(t, http + slash);
        lemma_strip_absent(t, https + slash);
        lemma_strip_present(socks + slash, a);
    } else {
        assert(!(http + slash).is_prefix_of(t)) by {
            assert(t[0] != (http + slash)[0]);
        }
        assert(!(https + slash).is_prefix_of(t)) by {
            assert(t[0] != (https + slash)[0]);
        }
        assert(!(socks + slash).is_prefix_of(t)) by {
            assert(t[5] != (socks + slash)[5]);
        }
        lemma_strip_absent(t, http + slash);
        lemma_strip_absent(t, https + slash);
        lemma_strip_absent(t, socks + slash);
        lemma_strip_present(socks5 + slash, a);
    }
    lemma_split_once_at(host, d);
    assert(kde_address(t) == Some((host, d)));
    lemma_strip_quotes_plain(host);
    assert(t.len() > 0);
}

/// Whether `c` sets the GNOME proxy mode to `v`.
pub open spec fn sets_gnome_mode(c: CommandView, v: Seq<char>) -> bool {
    c.program == "gsettings"@ && c.args == seq!["set"@, "org.gnome.system.proxy"@, "mode"@, v]
}

/// Whether `c` sets KDE's `ProxyType` to `v`.
pub open spec fn sets_kde_proxy_type(d: DesktopView, c: CommandView, v: Seq<char>) -> bool {
    c.program == kwriteconfig_program(d.plasma6) && c.args == seq![
        "--file"@,
        d.kioslaverc,
        "--group"@,
        "Proxy Settings"@,
        "--key"@,
        "ProxyType"@,
        v,
    ]
}

proof fn lemma_tool_names()
    ensures
        "gsettings"@ != kwriteconfig_program(true),
        "gsettings"@ != kwriteconfig_program(false),
        "mode"@ != "autoconfig-url"@,
        "ProxyType"@ != "Proxy Config Script"@,
{
    reveal_strlit("gsettings");
    reveal_strlit("kwriteconfig6");
    reveal_strlit("kwriteconfig5");
    reveal_strlit("mode");
    reveal_strlit("autoconfig-url");
    reveal_strlit("ProxyType");
    reveal_strlit("Proxy Config Script");
    assert("gsettings"@.len() != "kwriteconfig6"@.len());
    assert("gsettings"@.len() != "kwriteconfig5"@.len());
    assert("mode"@.len() != "autoconfig-url"@.len());
    assert("ProxyType"@.len() != "Proxy Config Script"@.len());
}

/// On every desktop, the writes of the enabled flag set the GNOME proxy mode
/// (`'manual'` to enable), every GNOME mode they write reads back through
/// `get_enable` as the flag written, and on KDE every `ProxyType` they write
/// reads back as the flag written too.
pub proof fn law_enable_writes_read_back(d: DesktopView, enable: bool)
    ensures
        exists|i: int|
            0 <= i < enable_plan(d, enable).len() && sets_gnome_mode(#[trigger] enable_plan(d, enable)[i],
                if enable {
                    "'manual'"@
                } else {
                    "'none'"@
                },
            ),
        forall|i: int, v: Seq<char>|
            0 <= i < enable_plan(d, enable).len() && #[trigger] sets_gnome_mode(enable_plan(d, enable)[i],
                v,
            ) ==> (v == manual_mode(false)) == enable && (v == "'manual'"@) == enable,
        d.kde ==> forall|i: int, v: Seq<char>|
            0 <= i < enable_plan(d, enable).len() && #[trigger] sets_kde_proxy_type(d, enable_plan(d, enable)[i],
                v,
            ) ==> (v == manual_mode(true)) == enable,
        forall|out: Seq<u8>, r: Result<bool, Error>|
            read_text(out) == Some(
                if enable {
                    "'manual'"@
                } else {
                    "'none'"@
                },
            ) && #[trigger] enable_reading(false, out, r) ==> r == Ok::<bool, Error>(enable),
{
    law_mode_read_back(enable);
    lemma_tool_names();
    reveal_strlit("'manual'");
    reveal_strlit("'none'");
    let p = enable_plan(d, enable);
    let v0 = if enable {
        "'manual'"@
    } else {
        "'none'"@
    };
    if d.kde {
        assert(sets_gnome_mode(p[1], v0));
        assert forall|i: int, v: Seq<char>|
            0 <= i < p.len() && #[trigger] sets_gnome_mode(p[i], v) implies (v == manual_mode(
                false,
            )) == enable && (v == "'manual'"@) == enable by {
            if i == 0 {
                assert(p[0].program == kwriteconfig_program(d.plasma6));
            } else {
                assert(p[1].args[3] == v);
            }
        }
        assert forall|i: int, v: Seq<char>|
            0 <= i < p.len() && #[trigger] sets_kde_proxy_type(d, p[i], v) implies (v
            == manual_mode(true)) == enable by {
            if i == 0 {
                assert(p[0].args[6] == v);
            } else {
                assert(p[1].program == "gsettings"@);
            }
        }
    } else {
        assert(sets_gnome_mode(p[0], v0));
        assert forall|i: int, v: Seq<char>|
            0 <= i < p.len() && #[trigger] sets_gnome_mode(p[i], v) implies (v == manual_mode(
                false,
            )) == enable && (v == "'manual'"@) == enable by {
            assert(p[0].args[3] == v);
        }
    }
}

/// On every desktop, the writes of the automatic proxy set the GNOME proxy
/// mode (`'auto'` to enable); every GNOME mode they write, and on KDE every
/// `ProxyType` they write, reads back through the reading of the automatic proxy
/// (`auto_mode`, which `get_auto_proxy` compares with) as the flag written.
pub proof fn law_auto_writes_read_back(d: DesktopView, a: AutoSettings)
    ensures
        exists|i: int|
            0 <= i < auto_proxy_plan(d, a).len() && sets_gnome_mode(#[trigger] auto_proxy_plan(d, a)[i],
                if a.enable {
                    "'auto'"@
                } else {
                    "'none'"@
                },
            ),
        forall|i: int, v: Seq<char>|
            0 <= i < auto_proxy_plan(d, a).len() && #[trigger] sets_gnome_mode(auto_proxy_plan(d, a)[i],
                v,
            ) ==> (v == auto_mode(false)) == a.enable && (v == "'auto'"@) == a.enable,
        d.kde ==> forall|i: int, v: Seq<char>|
            0 <= i < auto_proxy_plan(d, a).len() && #[trigger] sets_kde_proxy_type(d, auto_proxy_plan(d, a)[i],
                v,
            ) ==> (v == auto_mode(true)) == a.enable && (v == "2"@) == a.enable,
{
    law_mode_read_back(a.enable);
    lemma_tool_names();
    reveal_strlit("'auto'");
    reveal_strlit("'none'");
    reveal_strlit("2");
    reveal_strlit("0");
    let p = auto_proxy_plan(d, a);
    let v0 = if a.enable {
        "'auto'"@
    } else {
        "'none'"@
    };
    if d.kde {
        assert(sets_gnome_mode(p[2], v0));
        assert forall|i: int, v: Seq<char>|
            0 <= i < p.len() && #[trigger] sets_gnome_mode(p[i], v) implies (v == auto_mode(
                false,
            )) == a.enable && (v == "'auto'"@) == a.enable by {
            if i < 2 {
                assert(p[i].program == kwriteconfig_program(d.plasma6));
            } else if i == 2 {
                assert(p[2].args[3] == v);
            } else {
                assert(p[3].args[2] == "autoconfig-url"@);
            }
        }
        assert forall|i: int, v: Seq<char>|
            0 <= i < p.len() && #[trigger] sets_kde_proxy_type(d, p[i], v) implies (v
            == auto_mode(true)) == a.enable && (v == "2"@) == a.enable by {
            if i == 0 {
                assert(p[0].args[6] == v);
            } else if i == 1 {
                assert(p[1].args[5] == "Proxy Config Script"@);
            } else {
                assert(p[i].program == "gsettings"@);
            }
        }
    } else {
        assert(sets_gnome_mode(p[0], v0));
        assert forall|i: int, v: Seq<char>|
            0 <= i < p.len() && #[trigger] sets_gnome_mode(p[i], v) implies (v == auto_mode(
                false,
            )) == a.enable && (v == "'auto'"@) == a.enable by {
            if i == 0 {
                assert(p[0].args[3] == v);
            } else {
                assert(p[1].args[2] == "autoconfig-url"@);
            }
        }
    }
}

/// The automatic proxy reads as enabled exactly when the mode read is the
/// automatic one (`'auto'` on GNOME, `2` on KDE): in particular the manual
/// mode (`'manual'`, `1`) reads as not enabled.
pub proof fn law_auto_enabled_iff_auto_mode(
    kde: bool,
    mode_output: Seq<u8>,
    url_output: Seq<u8>,
    r: Result<Autoproxy, Error>,
)
    requires
        read_text(mode_output) is Some,
        read_text(url_output) is Some,
        auto_reading(kde, mode_output, url_output, r),
    ensures
        r matches Ok(x) && x.enable == (read_text(mode_output)->0 == if kde {
            "2"@
        } else {
            "'auto'"@
        }),
        read_text(mode_output) == Some(
            if kde {
                "1"@
            } else {
                "'manual'"@
            },
        ) ==> (r matches Ok(x) && !x.enable),
{
    reveal_strlit("'manual'");
    reveal_strlit("'auto'");
    reveal_strlit("1");
    reveal_strlit("2");
    assert("'manual'"@.len() != "'auto'"@.len());
    assert("1"@[0] != "2"@[0]);
}

} // verus!
