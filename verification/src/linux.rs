//! Reading and writing the proxy settings through `gsettings` (GNOME, and KDE
//! for the GTK side) and `kreadconfig`/`kwriteconfig` (KDE): the commands to
//! run and the reading of their output.

use vstd::prelude::*;
use vstd::string::*;
use vstd::utf8::*;

use crate::desktop::{
    Command, CommandView, Desktop, DesktopView, commands_view, gsettings, gsettings_spec,
    kread_spec, kwrite_spec,
};
use crate::sysproxy::{
    Autoproxy, AutoSettings, Error, ProxySettings, Sysproxy, empty_settings, fails_parsing,
};
use crate::text::{
    decimal, escape_quotes, escape_single_quotes, join, join_strings, pair_view, parse_u16,
    parse_u16_spec, split_char, split_on, split_once, split_once_spec, str_equal, strings_view,
    strip_all_prefix, strip_quotes, strip_str, strs_view, trim, trim_start_matches, trim_str,
    u16_to_string, utf8_text,
};

verus! {

/// The proxy services whose host and port are set.
#[derive(Debug, Clone, Copy)]
pub enum Service {
    Socks,
    Https,
    Http,
}

/// The name of a service in the settings' keys.
pub open spec fn service_name(s: Service) -> Seq<char> {
    match s {
        Service::Socks => "socks"@,
        Service::Https => "https"@,
        Service::Http => "http"@,
    }
}

impl Service {
    /// The name of the service in the settings' keys.
    pub fn name(self) -> (r: &'static str)
        ensures
            r@ == service_name(self),
    {
        match self {
            Service::Socks => "socks",
            Service::Https => "https",
            Service::Http => "http",
        }
    }
}

/// The GNOME schema of a service's settings.
pub open spec fn schema(s: Service) -> Seq<char> {
    "org.gnome.system.proxy"@ + "."@ + service_name(s)
}

/// The KDE key of a service's proxy.
pub open spec fn kde_proxy_key(s: Service) -> Seq<char> {
    service_name(s) + "Proxy"@
}

fn schema_of(s: Service) -> (r: String)
    ensures
        r@ == schema(s),
{
    let mut r = "org.gnome.system.proxy".to_owned();
    r.append(".");
    r.append(s.name());
    r
}

fn kde_proxy_key_of(s: Service) -> (r: String)
    ensures
        r@ == kde_proxy_key(s),
{
    let mut r = s.name().to_owned();
    r.append("Proxy");
    r
}

/// Joins two lists of commands.
fn concat(a: Vec<Command>, b: Vec<Command>) -> (r: Vec<Command>)
    ensures
        commands_view(r@) == commands_view(a@) + commands_view(b@),
{
    let mut a = a;
    let mut b = b;
    let ghost a0 = a@;
    let ghost b0 = b@;
    a.append(&mut b);
    assert(commands_view(a0 + b0) =~= commands_view(a0) + commands_view(b0));
    a
}

fn one(c: Command) -> (r: Vec<Command>)
    ensures
        commands_view(r@) == seq![c@],
{
    let mut v: Vec<Command> = Vec::new();
    v.push(c);
    assert(commands_view(v@) =~= seq![c@]);
    v
}

fn two(c: Command, d: Command) -> (r: Vec<Command>)
    ensures
        commands_view(r@) == seq![c@, d@],
{
    let mut v: Vec<Command> = Vec::new();
    v.push(c);
    v.push(d);
    assert(commands_view(v@) =~= seq![c@, d@]);
    v
}

// ---------------------------------------------------------------------------
// Reading
// ---------------------------------------------------------------------------

/// The trimmed text of a tool's output, where it is valid UTF-8.
pub open spec fn read_text(out: Seq<u8>) -> Option<Seq<char>> {
    if valid_utf8(out) {
        Some(trim(decode_utf8(out)))
    } else {
        None
    }
}

/// The trimmed text of a tool's output, where it is valid UTF-8.
pub fn output_text(out: &[u8]) -> (r: Option<&str>)
    ensures
        match r {
            Some(t) => read_text(out@) == Some(t@),
            None => read_text(out@) is None,
        },
{
    match utf8_text(out) {
        Some(t) => Some(trim_str(t)),
        None => None,
    }
}

/// The reading of the proxy mode that means the manual proxy is on.
pub open spec fn manual_mode(kde: bool) -> Seq<char> {
    if kde {
        "1"@
    } else {
        "'manual'"@
    }
}

/// The reading of the proxy mode that means the automatic proxy is on.
pub open spec fn auto_mode(kde: bool) -> Seq<char> {
    if kde {
        "2"@
    } else {
        "'auto'"@
    }
}

/// The command that reads the proxy mode.
pub open spec fn mode_query_spec(d: DesktopView) -> CommandView {
    if d.kde {
        kread_spec(d, "ProxyType"@)
    } else {
        gsettings_spec(seq!["get"@, "org.gnome.system.proxy"@, "mode"@])
    }
}

/// The command that reads the bypass list.
pub open spec fn bypass_query_spec(d: DesktopView) -> CommandView {
    if d.kde {
        kread_spec(d, "NoProxyFor"@)
    } else {
        gsettings_spec(seq!["get"@, "org.gnome.system.proxy"@, "ignore-hosts"@])
    }
}

/// The commands that read a service's proxy: on KDE its one entry, on GNOME
/// its host and then its port.
pub open spec fn proxy_query_spec(d: DesktopView, s: Service) -> Seq<CommandView> {
    if d.kde {
        seq![kread_spec(d, kde_proxy_key(s))]
    } else {
        seq![
            gsettings_spec(seq!["get"@, schema(s), "host"@]),
            gsettings_spec(seq!["get"@, schema(s), "port"@]),
        ]
    }
}

/// The command that reads the automatic proxy's URL.
pub open spec fn autoconfig_url_query_spec(d: DesktopView) -> CommandView {
    if d.kde {
        kread_spec(d, "Proxy Config Script"@)
    } else {
        gsettings_spec(seq!["get"@, "org.gnome.system.proxy"@, "autoconfig-url"@])
    }
}

impl Desktop {
    /// The command that reads the proxy mode.
    pub fn mode_query(&self) -> (r: Command)
        ensures
            r@ == mode_query_spec(self@),
    {
        if self.kde {
            self.kreadconfig("ProxyType")
        } else {
            let args = ["get", "org.gnome.system.proxy", "mode"];
            let r = gsettings(&args);
            assert(strs_view(args@) =~= seq!["get"@, "org.gnome.system.proxy"@, "mode"@]);
            r
        }
    }

    /// The command that reads the bypass list.
    pub fn bypass_query(&self) -> (r: Command)
        ensures
            r@ == bypass_query_spec(self@),
    {
        if self.kde {
            self.kreadconfig("NoProxyFor")
        } else {
            let args = ["get", "org.gnome.system.proxy", "ignore-hosts"];
            let r = gsettings(&args);
            assert(strs_view(args@) =~= seq!["get"@, "org.gnome.system.proxy"@, "ignore-hosts"@]);
            r
        }
    }

    /// The commands that read a service's proxy, in the order they are run.
    pub fn proxy_query(&self, service: Service) -> (r: Vec<Command>)
        ensures
            commands_view(r@) == proxy_query_spec(self@, service),
    {
        if self.kde {
            let key = kde_proxy_key_of(service);
            one(self.kreadconfig(key.as_str()))
        } else {
            let schema = schema_of(service);
            let host_args = ["get", schema.as_str(), "host"];
            let port_args = ["get", schema.as_str(), "port"];
            let host = gsettings(&host_args);
            let port = gsettings(&port_args);
            assert(strs_view(host_args@) =~= seq!["get"@, schema@, "host"@]);
            assert(strs_view(port_args@) =~= seq!["get"@, schema@, "port"@]);
            two(host, port)
        }
    }

    /// The command that reads the automatic proxy's URL.
    pub fn autoconfig_url_query(&self) -> (r: Command)
        ensures
            r@ == autoconfig_url_query_spec(self@),
    {
        if self.kde {
            self.kreadconfig("Proxy Config Script")
        } else {
            let args = ["get", "org.gnome.system.proxy", "autoconfig-url"];
            let r = gsettings(&args);
            assert(strs_view(args@) =~= seq![
                "get"@,
                "org.gnome.system.proxy"@,
                "autoconfig-url"@,
            ]);
            r
        }
    }
}

/// A bypass list as read back: the entries between commas, each trimmed and
/// stripped of its quotes, joined with commas.
pub open spec fn bypass_entries(s: Seq<char>) -> Seq<char> {
    join(split_on(s, ',').map_values(|h: Seq<char>| strip_quotes(trim(h))), seq![','])
}

/// `s` without one leading `c`, where present.
pub open spec fn strip_first(s: Seq<char>, c: char) -> Seq<char> {
    if s.len() > 0 && s[0] == c {
        s.drop_first()
    } else {
        s
    }
}

/// `s` without one trailing `c`, where present.
pub open spec fn strip_last(s: Seq<char>, c: char) -> Seq<char> {
    if s.len() > 0 && s.last() == c {
        s.drop_last()
    } else {
        s
    }
}

/// The bypass list that a reading of the bypass setting gives: on GNOME the
/// reading is a list in brackets, on KDE the bare list.
pub open spec fn read_bypass(kde: bool, t: Seq<char>) -> Seq<char> {
    if kde {
        bypass_entries(t)
    } else {
        bypass_entries(strip_last(strip_first(t, '['), ']'))
    }
}

/// `s` without one leading `c`, where present.
pub fn strip_prefix_char(s: &str, c: char) -> (r: &str)
    ensures
        r@ == strip_first(s@, c),
{
    let n = s.unicode_len();
    if n > 0 && s.get_char(0) == c {
        assert(s@.drop_first() =~= s@.subrange(1, n as int));
        s.substring_char(1, n)
    } else {
        s
    }
}

/// `s` without one trailing `c`, where present.
pub fn strip_suffix_char(s: &str, c: char) -> (r: &str)
    ensures
        r@ == strip_last(s@, c),
{
    let n = s.unicode_len();
    if n > 0 && s.get_char(n - 1) == c {
        assert(s@.drop_last() =~= s@.subrange(0, n - 1));
        s.substring_char(0, n - 1)
    } else {
        s
    }
}

/// The entries of a comma-separated list, each trimmed and stripped of its
/// quotes, joined with commas.
pub fn clean_bypass_list(s: &str) -> (r: String)
    ensures
        r@ == bypass_entries(s@),
{
    let pieces = split_char(s, ',');
    let ghost parts = split_on(s@, ',');
    let ghost f = |h: Seq<char>| strip_quotes(trim(h));
    let n = pieces.len();
    let mut cleaned: Vec<String> = Vec::new();
    let mut i: usize = 0;
    while i < n
        invariant
            n == pieces@.len(),
            strs_view(pieces@) == parts,
            parts == split_on(s@, ','),
            f == (|h: Seq<char>| strip_quotes(trim(h))),
            i <= n,
            strings_view(cleaned@) == parts.take(i as int).map_values(f),
        decreases n - i,
    {
        let c = strip_str(trim_str(pieces[i])).to_owned();
        assert(parts[i as int] == pieces@[i as int]@);
        assert(parts.take(i + 1).map_values(f) =~= parts.take(i as int).map_values(f).push(c@));
        assert(strings_view(cleaned@.push(c)) =~= strings_view(cleaned@).push(c@));
        cleaned.push(c);
        i = i + 1;
    }
    assert(parts.take(n as int) =~= parts);
    assert(parts.map_values(f) =~= split_on(s@, ',').map_values(
        |h: Seq<char>| strip_quotes(trim(h)),
    ));
    proof {
        reveal_strlit(",");
    }
    assert(","@ =~= seq![',']);
    assert(strings_view(cleaned@) == split_on(s@, ',').map_values(
        |h: Seq<char>| strip_quotes(trim(h)),
    ));
    join_strings(&cleaned, ",")
}

/// The entry of a service's proxy that KDE holds, split into the host and
/// the port text: the scheme prefixes are dropped, and the rest is split at
/// the first `:`, or else at the first space.
pub open spec fn kde_address(t: Seq<char>) -> Option<(Seq<char>, Seq<char>)> {
    let a = strip_all_prefix(
        strip_all_prefix(strip_all_prefix(strip_all_prefix(t, "http://"@), "https://"@), "socks://"@),
        "socks5://"@,
    );
    match split_once_spec(a, ':') {
        Some(x) => Some(x),
        None => split_once_spec(a, ' '),
    }
}

/// The port that a port text gives: its value, or 0 where it is not a `u16`.
pub open spec fn port_or_zero(p: Seq<char>) -> u16 {
    match parse_u16_spec(p) {
        Some(v) => v,
        None => 0,
    }
}

/// The settings read for one service: disabled, with no bypass list.
pub open spec fn service_settings(host: Seq<char>, port: u16) -> ProxySettings {
    ProxySettings { enable: false, host, port, bypass: seq![] }
}

/// The outputs of the commands of [`Desktop::proxy_query`].
pub enum ProxyOutput {
    /// GNOME: the output of reading the host, and of reading the port.
    Gnome { host: Vec<u8>, port: Vec<u8> },
    /// KDE: the output of reading the service's entry.
    Kde { value: Vec<u8> },
}

/// What reading a service's proxy gives, from the outputs of its commands.
pub open spec fn proxy_reading(out: ProxyOutput, r: Result<Sysproxy, Error>) -> bool {
    match out {
        ProxyOutput::Gnome { host, port } => match read_text(host@) {
            None => fails_parsing(r, "host"@),
            Some(h) => match read_text(port@) {
                None => fails_parsing(r, "port"@),
                Some(p) => r matches Ok(x) && x@ == service_settings(strip_quotes(h), port_or_zero(p)),
            },
        },
        ProxyOutput::Kde { value } => match read_text(value@) {
            None => fails_parsing(r, "schema"@),
            Some(t) => if t.len() == 0 {
                r matches Ok(x) && x@ == empty_settings()
            } else {
                match kde_address(t) {
                    Some((h, p)) => r matches Ok(x) && x@ == service_settings(
                        strip_quotes(h),
                        port_or_zero(p),
                    ),
                    None => fails_parsing(r, t),
                }
            },
        },
    }
}

fn port_value(p: &str) -> (r: u16)
    ensures
        r == port_or_zero(p@),
{
    match parse_u16(p) {
        Some(v) => v,
        None => 0,
    }
}

fn kde_split<'a>(addr: &'a str) -> (r: Option<(&'a str, &'a str)>)
    ensures
        pair_view(r) == (match split_once_spec(addr@, ':') {
            Some(x) => Some(x),
            None => split_once_spec(addr@, ' '),
        }),
{
    match split_once(addr, ':') {
        Some(x) => Some(x),
        None => split_once(addr, ' '),
    }
}

/// Reads a service's proxy from the outputs of [`Desktop::proxy_query`]:
/// on GNOME the host (unquoted) and the port; on KDE the entry
/// `scheme://host:port` (or the older `host port`), where an empty entry
/// means nothing is set and an entry with neither separator is refused.
pub fn get_proxy(output: &ProxyOutput) -> (r: Result<Sysproxy, Error>)
    ensures
        proxy_reading(*output, r),
{
    match output {
        ProxyOutput::Gnome { host, port } => {
            let h = match output_text(host.as_slice()) {
                Some(h) => h,
                None => return Err(Error::ParseStr("host".to_owned())),
            };
            let h = strip_str(h);
            let p = match output_text(port.as_slice()) {
                Some(p) => p,
                None => return Err(Error::ParseStr("port".to_owned())),
            };
            Ok(Sysproxy { enable: false, host: h.to_owned(), port: port_value(p), bypass: String::new() })
        },
        ProxyOutput::Kde { value } => {
            let t = match output_text(value.as_slice()) {
                Some(t) => t,
                None => return Err(Error::ParseStr("schema".to_owned())),
            };
            if t.unicode_len() == 0 {
                return Ok(
                    Sysproxy { enable: false, host: String::new(), port: 0, bypass: String::new() },
                );
            }
            let a = trim_start_matches(t, "http://");
            let a = trim_start_matches(a, "https://");
            let a = trim_start_matches(a, "socks://");
            let a = trim_start_matches(a, "socks5://");
            match kde_split(a) {
                Some((h, p)) => Ok(
                    Sysproxy {
                        enable: false,
                        host: strip_str(h).to_owned(),
                        port: port_value(p),
                        bypass: String::new(),
                    },
                ),
                None => Err(Error::ParseStr(t.to_owned())),
            }
        },
    }
}

/// The settings chosen from the readings of the three services: the SOCKS
/// proxy where it has a host, else the HTTP one where it has a host, else the
/// HTTPS one where it has a host, else the SOCKS one.
pub open spec fn chosen_service(socks: ProxySettings, https: ProxySettings, http: ProxySettings) -> ProxySettings {
    if socks.host.len() > 0 {
        socks
    } else if http.host.len() > 0 {
        http
    } else if https.host.len() > 0 {
        https
    } else {
        socks
    }
}

/// What reading the enabled flag gives from the output of the mode query:
/// whether the mode is the manual one.
pub open spec fn enable_reading(kde: bool, output: Seq<u8>, r: Result<bool, Error>) -> bool {
    match read_text(output) {
        Some(t) => r == Ok::<bool, Error>(t == manual_mode(kde)),
        None => fails_parsing(r, "mode"@),
    }
}

/// What reading the bypass list gives from the output of the bypass query.
pub open spec fn bypass_reading(kde: bool, output: Seq<u8>, r: Result<String, Error>) -> bool {
    match read_text(output) {
        Some(t) => r matches Ok(b) && b@ == read_bypass(kde, t),
        None => fails_parsing(r, "bypass"@),
    }
}

/// The system proxy from the readings of its parts: the enabled flag, the
/// host and port of the chosen service (see [`chosen_service`]), and the
/// bypass list, empty where it could not be read (`None`).
pub open spec fn read_system_proxy(
    enable: bool,
    socks: ProxySettings,
    https: ProxySettings,
    http: ProxySettings,
    bypass: Option<Seq<char>>,
) -> ProxySettings {
    let c = chosen_service(socks, https, http);
    ProxySettings {
        enable,
        host: c.host,
        port: c.port,
        bypass: match bypass {
            Some(b) => b,
            None => seq![],
        },
    }
}

impl Sysproxy {
    /// Reads whether the manual proxy is on from the output of [`Desktop::mode_query`].
    pub fn get_enable(desktop: &Desktop, output: &[u8]) -> (r: Result<bool, Error>)
        ensures
            enable_reading(desktop.kde, output@, r),
    {
        match output_text(output) {
            Some(t) => {
                let m = if desktop.kde {
                    "1"
                } else {
                    "'manual'"
                };
                Ok(str_equal(t, m))
            },
            None => Err(Error::ParseStr("mode".to_owned())),
        }
    }

    /// Reads the bypass list from the output of [`Desktop::bypass_query`].
    pub fn get_bypass(desktop: &Desktop, output: &[u8]) -> (r: Result<String, Error>)
        ensures
            bypass_reading(desktop.kde, output@, r),
    {
        match output_text(output) {
            Some(t) => {
                let list = if desktop.kde {
                    t
                } else {
                    strip_suffix_char(strip_prefix_char(t, '['), ']')
                };
                Ok(clean_bypass_list(list))
            },
            None => Err(Error::ParseStr("bypass".to_owned())),
        }
    }

    /// Reads the HTTP proxy from the outputs of `proxy_query(Service::Http)`.
    pub fn get_http(output: &ProxyOutput) -> (r: Result<Sysproxy, Error>)
        ensures
            proxy_reading(*output, r),
    {
        get_proxy(output)
    }

    /// Reads the HTTPS proxy from the outputs of `proxy_query(Service::Https)`.
    pub fn get_https(output: &ProxyOutput) -> (r: Result<Sysproxy, Error>)
        ensures
            proxy_reading(*output, r),
    {
        get_proxy(output)
    }

    /// Reads the SOCKS proxy from the outputs of `proxy_query(Service::Socks)`.
    pub fn get_socks(output: &ProxyOutput) -> (r: Result<Sysproxy, Error>)
        ensures
            proxy_reading(*output, r),
    {
        get_proxy(output)
    }

    /// The system proxy from the readings of its parts: the enabled flag, the
    /// host and port of the chosen service (see [`chosen_service`]), and the
    /// bypass list, empty where it could not be read.
    pub fn get_system_proxy(
        enable: bool,
        socks: Sysproxy,
        https: Sysproxy,
        http: Sysproxy,
        bypass: Result<String, Error>,
    ) -> (r: Sysproxy)
        ensures
            r@ == read_system_proxy(
                enable,
                socks@,
                https@,
                http@,
                match bypass {
                    Ok(b) => Some(b@),
                    Err(_) => None,
                },
            ),
    {
        let bypass = match bypass {
            Ok(b) => b,
            Err(_) => String::new(),
        };
        let (host, port) = if socks.host.as_str().unicode_len() > 0 {
            (socks.host, socks.port)
        } else if http.host.as_str().unicode_len() > 0 {
            (http.host, http.port)
        } else if https.host.as_str().unicode_len() > 0 {
            (https.host, https.port)
        } else {
            (socks.host, socks.port)
        };
        Sysproxy { enable, host, port, bypass }
    }
}

// ---------------------------------------------------------------------------
// Writing
// ---------------------------------------------------------------------------

/// `gsettings set schema key value`.
pub open spec fn gsettings_set(schema: Seq<char>, key: Seq<char>, value: Seq<char>) -> CommandView {
    gsettings_spec(seq!["set"@, schema, key, value])
}

fn gsettings_set_cmd(schema: &str, key: &str, value: &str) -> (r: Command)
    ensures
        r@ == gsettings_set(schema@, key@, value@),
{
    let args = ["set", schema, key, value];
    let r = gsettings(&args);
    assert(strs_view(args@) =~= seq!["set"@, schema@, key@, value@]);
    r
}

/// The writes of the enabled flag: on KDE its `ProxyType` (`1` or `0`) and
/// then the GNOME mode, elsewhere the GNOME mode (`'manual'` or `'none'`).
pub open spec fn enable_plan(d: DesktopView, enable: bool) -> Seq<CommandView> {
    let g = gsettings_set("org.gnome.system.proxy"@, "mode"@, gnome_mode_value(enable));
    if d.kde {
        seq![kwrite_spec(d, "ProxyType"@, kde_mode_value(enable)), g]
    } else {
        seq![g]
    }
}

/// The GNOME proxy mode written for the manual proxy: `'manual'` or `'none'`.
pub open spec fn gnome_mode_value(enable: bool) -> Seq<char> {
    if enable {
        "'manual'"@
    } else {
        "'none'"@
    }
}

/// KDE's `ProxyType` written for the manual proxy: `1` or `0`.
pub open spec fn kde_mode_value(enable: bool) -> Seq<char> {
    if enable {
        "1"@
    } else {
        "0"@
    }
}

/// The GNOME proxy mode written for the automatic proxy: `'auto'` or `'none'`.
pub open spec fn gnome_auto_value(enable: bool) -> Seq<char> {
    if enable {
        "'auto'"@
    } else {
        "'none'"@
    }
}

/// KDE's `ProxyType` written for the automatic proxy: `2` or `0`.
pub open spec fn kde_auto_value(enable: bool) -> Seq<char> {
    if enable {
        "2"@
    } else {
        "0"@
    }
}

/// `h` as a GVariant string: in single quotes, with its single quotes escaped.
pub open spec fn quoted(h: Seq<char>) -> Seq<char> {
    seq!['\''] + escape_quotes(h) + seq!['\'']
}

/// A comma-separated list as a GVariant list of strings: each entry trimmed
/// and quoted, joined with `", "`, in brackets.
pub open spec fn gvariant_list(b: Seq<char>) -> Seq<char> {
    seq!['['] + join(
        split_on(b, ',').map_values(|h: Seq<char>| quoted(trim(h))),
        seq![',', ' '],
    ) + seq![']']
}

/// The writes of the bypass list: the GNOME `ignore-hosts` list, and on KDE
/// then its `NoProxyFor` entry, which holds the list as given.
pub open spec fn bypass_plan(d: DesktopView, bypass: Seq<char>) -> Seq<CommandView> {
    let g = gsettings_set("org.gnome.system.proxy"@, "ignore-hosts"@, gvariant_list(bypass));
    if d.kde {
        seq![g, kwrite_spec(d, "NoProxyFor"@, bypass)]
    } else {
        seq![g]
    }
}

/// The scheme that KDE's entry of a service names.
pub open spec fn scheme(s: Service) -> Seq<char> {
    match s {
        Service::Socks => seq!['s', 'o', 'c', 'k', 's'],
        _ => seq!['h', 't', 't', 'p'],
    }
}

/// KDE's entry of a service's proxy: `scheme://host:port`.
pub open spec fn kde_proxy_value(s: Service, host: Seq<char>, port: u16) -> Seq<char> {
    scheme(s) + seq![':', '/', '/'] + host + seq![':'] + decimal(port as nat)
}

/// The writes of a service's proxy: its GNOME host (quoted) and port, and on
/// KDE then its `kioslaverc` entry.
pub open spec fn proxy_plan(d: DesktopView, p: ProxySettings, s: Service) -> Seq<CommandView> {
    let g = seq![
        gsettings_set(schema(s), "host"@, quoted(p.host)),
        gsettings_set(schema(s), "port"@, decimal(p.port as nat)),
    ];
    if d.kde {
        g.push(kwrite_spec(d, kde_proxy_key(s), kde_proxy_value(s, p.host, p.port)))
    } else {
        g
    }
}

/// The writes of the whole manual proxy, in order: the enabled flag, the
/// SOCKS, HTTPS and HTTP proxies, and the bypass list. Host, port and bypass
/// list are written whether or not the proxy is enabled.
pub open spec fn system_proxy_plan(d: DesktopView, p: ProxySettings) -> Seq<CommandView> {
    enable_plan(d, p.enable) + proxy_plan(d, p, Service::Socks) + proxy_plan(d, p, Service::Https)
        + proxy_plan(d, p, Service::Http) + bypass_plan(d, p.bypass)
}

/// The writes of the automatic proxy: on KDE its `ProxyType` (`2` or `0`) and
/// its script URL, then in any case the GNOME mode (`'auto'` or `'none'`) and
/// URL.
pub open spec fn auto_proxy_plan(d: DesktopView, a: AutoSettings) -> Seq<CommandView> {
    let g = seq![
        gsettings_set("org.gnome.system.proxy"@, "mode"@, gnome_auto_value(a.enable)),
        gsettings_set("org.gnome.system.proxy"@, "autoconfig-url"@, a.url),
    ];
    if d.kde {
        seq![
            kwrite_spec(d, "ProxyType"@, kde_auto_value(a.enable)),
            kwrite_spec(d, "Proxy Config Script"@, a.url),
        ] + g
    } else {
        g
    }
}

/// `h` in single quotes, with its single quotes escaped.
pub fn quote(h: &str) -> (r: String)
    ensures
        r@ == quoted(h@),
{
    let mut r = "'".to_owned();
    r.append(escape_single_quotes(h).as_str());
    r.append("'");
    proof {
        reveal_strlit("'");
    }
    r
}

/// A comma-separated list as a GVariant list of strings.
pub fn to_gvariant_list(bypass: &str) -> (r: String)
    ensures
        r@ == gvariant_list(bypass@),
{
    let pieces = split_char(bypass, ',');
    let ghost parts = split_on(bypass@, ',');
    let ghost f = |h: Seq<char>| quoted(trim(h));
    let n = pieces.len();
    let mut entries: Vec<String> = Vec::new();
    let mut i: usize = 0;
    while i < n
        invariant
            n == pieces@.len(),
            strs_view(pieces@) == parts,
            f == (|h: Seq<char>| quoted(trim(h))),
            i <= n,
            strings_view(entries@) == parts.take(i as int).map_values(f),
        decreases n - i,
    {
        let e = quote(trim_str(pieces[i]));
        assert(parts[i as int] == pieces@[i as int]@);
        assert(parts.take(i + 1).map_values(f) =~= parts.take(i as int).map_values(f).push(e@));
        assert(strings_view(entries@.push(e)) =~= strings_view(entries@).push(e@));
        entries.push(e);
        i = i + 1;
    }
    assert(parts.take(n as int) =~= parts);
    assert(parts.map_values(f) =~= split_on(bypass@, ',').map_values(
        |h: Seq<char>| quoted(trim(h)),
    ));
    proof {
        reveal_strlit("[");
        reveal_strlit("]");
        reveal_strlit(", ");
    }
    assert(", "@ =~= seq![',', ' ']);
    assert("["@ =~= seq!['[']);
    assert("]"@ =~= seq![']']);
    let joined = join_strings(&entries, ", ");
    let mut r = "[".to_owned();
    r.append(joined.as_str());
    r.append("]");
    assert(r@ =~= seq!['['] + joined@ + seq![']']);
    r
}

/// KDE's entry of a service's proxy: `scheme://host:port`.
fn kde_proxy_entry(s: Service, host: &str, port: &str) -> (r: String)
    ensures
        r@ == (match s {
            Service::Socks => seq!['s', 'o', 'c', 'k', 's'],
            _ => seq!['h', 't', 't', 'p'],
        }) + seq![':', '/', '/'] + host@ + seq![':'] + port@,
{
    let mut r = match s {
        Service::Socks => "socks".to_owned(),
        _ => "http".to_owned(),
    };
    r.append("://");
    r.append(host);
    r.append(":");
    r.append(port);
    proof {
        reveal_strlit("socks");
        reveal_strlit("http");
        reveal_strlit("://");
        reveal_strlit(":");
    }
    r
}

/// The writes of a service's proxy.
pub fn set_proxy(proxy: &Sysproxy, service: Service, desktop: &Desktop) -> (r: Vec<Command>)
    ensures
        commands_view(r@) == proxy_plan(desktop@, proxy@, service),
{
    let schema = schema_of(service);
    let host = quote(proxy.host.as_str());
    let port = u16_to_string(proxy.port);
    let g = two(
        gsettings_set_cmd(schema.as_str(), "host", host.as_str()),
        gsettings_set_cmd(schema.as_str(), "port", port.as_str()),
    );
    if desktop.kde {
        let key = kde_proxy_key_of(service);
        let value = kde_proxy_entry(service, proxy.host.as_str(), port.as_str());
        let k = desktop.kwriteconfig(key.as_str(), value.as_str());
        assert(value@ == kde_proxy_value(service, proxy.host@, proxy.port));
        concat(g, one(k))
    } else {
        g
    }
}

/// The writes of the enabled flag `enable`, and of nothing else.
pub fn mode_writes(enable: bool, desktop: &Desktop) -> (r: Vec<Command>)
    ensures
        commands_view(r@) == enable_plan(desktop@, enable),
{
    let gmode = if enable {
        "'manual'"
    } else {
        "'none'"
    };
    let g = gsettings_set_cmd("org.gnome.system.proxy", "mode", gmode);
    if desktop.kde {
        let mode = if enable {
            "1"
        } else {
            "0"
        };
        two(desktop.kwriteconfig("ProxyType", mode), g)
    } else {
        one(g)
    }
}

impl Sysproxy {
    /// The writes of the enabled flag.
    pub fn set_enable(&self, desktop: &Desktop) -> (r: Vec<Command>)
        ensures
            commands_view(r@) == enable_plan(desktop@, self.enable),
    {
        mode_writes(self.enable, desktop)
    }

    /// The writes of the bypass list.
    pub fn set_bypass(&self, desktop: &Desktop) -> (r: Vec<Command>)
        ensures
            commands_view(r@) == bypass_plan(desktop@, self.bypass@),
    {
        let list = to_gvariant_list(self.bypass.as_str());
        let g = gsettings_set_cmd("org.gnome.system.proxy", "ignore-hosts", list.as_str());
        if desktop.kde {
            two(g, desktop.kwriteconfig("NoProxyFor", self.bypass.as_str()))
        } else {
            one(g)
        }
    }

    /// The writes of the HTTP proxy.
    pub fn set_http(&self, desktop: &Desktop) -> (r: Vec<Command>)
        ensures
            commands_view(r@) == proxy_plan(desktop@, self@, Service::Http),
    {
        set_proxy(self, Service::Http, desktop)
    }

    /// The writes of the HTTPS proxy.
    pub fn set_https(&self, desktop: &Desktop) -> (r: Vec<Command>)
        ensures
            commands_view(r@) == proxy_plan(desktop@, self@, Service::Https),
    {
        set_proxy(self, Service::Https, desktop)
    }

    /// The writes of the SOCKS proxy.
    pub fn set_socks(&self, desktop: &Desktop) -> (r: Vec<Command>)
        ensures
            commands_view(r@) == proxy_plan(desktop@, self@, Service::Socks),
    {
        set_proxy(self, Service::Socks, desktop)
    }

    /// The writes of the whole manual proxy, in the order they are run.
    pub fn set_system_proxy(&self, desktop: &Desktop) -> (r: Vec<Command>)
        ensures
            commands_view(r@) == system_proxy_plan(desktop@, self@),
    {
        let r = concat(self.set_enable(desktop), self.set_socks(desktop));
        let r = concat(r, self.set_https(desktop));
        let r = concat(r, self.set_http(desktop));
        concat(r, self.set_bypass(desktop))
    }
}

/// What reading the automatic proxy gives, from the outputs of the mode and
/// URL queries: enabled where the mode is the automatic one, and the URL
/// (unquoted on GNOME); a parse failure naming the first output that is not
/// UTF-8.
pub open spec fn auto_reading(
    kde: bool,
    mode_output: Seq<u8>,
    url_output: Seq<u8>,
    r: Result<Autoproxy, Error>,
) -> bool {
    match read_text(mode_output) {
        None => fails_parsing(r, "mode"@),
        Some(m) => match read_text(url_output) {
            None => fails_parsing(r, "url"@),
            Some(u) => r matches Ok(a) && a@ == (AutoSettings {
                enable: m == auto_mode(kde),
                url: if kde {
                    u
                } else {
                    strip_quotes(u)
                },
            }),
        },
    }
}

impl Autoproxy {
    /// Reads the automatic proxy from the outputs of [`Desktop::mode_query`]
    /// and [`Desktop::autoconfig_url_query`]: enabled where the mode is the
    /// automatic one, and the URL (unquoted on GNOME).
    pub fn get_auto_proxy(desktop: &Desktop, mode_output: &[u8], url_output: &[u8]) -> (r: Result<Autoproxy, Error>)
        ensures
            auto_reading(desktop.kde, mode_output@, url_output@, r),
    {
        let m = match output_text(mode_output) {
            Some(m) => m,
            None => return Err(Error::ParseStr("mode".to_owned())),
        };
        let u = match output_text(url_output) {
            Some(u) => u,
            None => return Err(Error::ParseStr("url".to_owned())),
        };
        let (mode, url) = if desktop.kde {
            (str_equal(m, "2"), u)
        } else {
            (str_equal(m, "'auto'"), strip_str(u))
        };
        Ok(Autoproxy { enable: mode, url: url.to_owned() })
    }

    /// The writes of the automatic proxy, in the order they are run.
    pub fn set_auto_proxy(&self, desktop: &Desktop) -> (r: Vec<Command>)
        ensures
            commands_view(r@) == auto_proxy_plan(desktop@, self@),
    {
        let gmode = if self.enable {
            "'auto'"
        } else {
            "'none'"
        };
        let g = two(
            gsettings_set_cmd("org.gnome.system.proxy", "mode", gmode),
            gsettings_set_cmd("org.gnome.system.proxy", "autoconfig-url", self.url.as_str()),
        );
        if desktop.kde {
            let mode = if self.enable {
                "2"
            } else {
                "0"
            };
            let k = two(
                desktop.kwriteconfig("ProxyType", mode),
                desktop.kwriteconfig("Proxy Config Script", self.url.as_str()),
            );
            concat(k, g)
        } else {
            g
        }
    }
}

} // verus!
