use netru::desktop::Desktop;
use netru::linux::{get_proxy, to_gvariant_list};
use netru::{is_kde, Autoproxy, Command, Error, ProxyOutput, Service, Sysproxy};

fn gnome() -> Desktop {
    Desktop::new("ubuntu:GNOME", "", String::new())
}

fn kde() -> Desktop {
    Desktop::new("KDE", "6", "/home/u/.config/kioslaverc".to_string())
}

fn cmd(c: &Command) -> (String, Vec<String>) {
    (c.program.clone(), c.args.clone())
}

fn c(program: &str, args: &[&str]) -> (String, Vec<String>) {
    (program.to_string(), args.iter().map(|a| a.to_string()).collect())
}

fn proxy(enable: bool, host: &str, port: u16, bypass: &str) -> Sysproxy {
    Sysproxy { enable, host: host.to_string(), port, bypass: bypass.to_string() }
}

fn parse_error(r: &netru::Result<impl std::fmt::Debug>) -> Option<String> {
    match r {
        Err(Error::ParseStr(s)) => Some(s.clone()),
        _ => None,
    }
}

#[test]
fn is_support_is_true() {
    assert!(Sysproxy::is_support());
    assert!(Autoproxy::is_support());
}

#[test]
fn kde_detection() {
    assert!(is_kde("KDE"));
    assert!(is_kde("X-Cinnamon:KDE"));
    assert!(is_kde(" KDE :GNOME"));
    assert!(!is_kde("ubuntu:GNOME"));
    assert!(!is_kde("kde"));
    assert!(!is_kde(""));
    let d = Desktop::new("KDE", "6", "cfg".to_string());
    assert!(d.kde && d.plasma6);
    let d = Desktop::new("KDE", "5", "cfg".to_string());
    assert!(d.kde && !d.plasma6);
}

#[test]
fn queries_name_the_settings() {
    let g = gnome();
    assert_eq!(cmd(&g.mode_query()), c("gsettings", &["get", "org.gnome.system.proxy", "mode"]));
    assert_eq!(
        g.proxy_query(Service::Http).iter().map(cmd).collect::<Vec<_>>(),
        vec![
            c("gsettings", &["get", "org.gnome.system.proxy.http", "host"]),
            c("gsettings", &["get", "org.gnome.system.proxy.http", "port"]),
        ]
    );
    let k = kde();
    assert_eq!(
        cmd(&k.bypass_query()),
        c(
            "kreadconfig6",
            &["--file", "/home/u/.config/kioslaverc", "--group", "Proxy Settings", "--key", "NoProxyFor"]
        )
    );
    assert_eq!(
        k.proxy_query(Service::Socks).iter().map(cmd).collect::<Vec<_>>(),
        vec![c(
            "kreadconfig6",
            &["--file", "/home/u/.config/kioslaverc", "--group", "Proxy Settings", "--key", "socksProxy"]
        )]
    );
    let k5 = Desktop::new("KDE", "", "cfg".to_string());
    assert_eq!(k5.autoconfig_url_query().program, "kreadconfig5");
}

#[test]
fn reads_enable_flag() {
    assert_eq!(Sysproxy::get_enable(&gnome(), b"'manual'\n").unwrap(), true);
    assert_eq!(Sysproxy::get_enable(&gnome(), b"'none'\n").unwrap(), false);
    assert_eq!(Sysproxy::get_enable(&kde(), b"1\n").unwrap(), true);
    assert_eq!(Sysproxy::get_enable(&kde(), b"0").unwrap(), false);
    assert_eq!(parse_error(&Sysproxy::get_enable(&gnome(), &[0xff, 0xfe])), Some("mode".to_string()));
}

#[test]
fn reads_bypass_list() {
    assert_eq!(
        Sysproxy::get_bypass(&gnome(), b"['localhost', '127.0.0.1/8']\n").unwrap(),
        "localhost,127.0.0.1/8"
    );
    assert_eq!(Sysproxy::get_bypass(&gnome(), b"@as []\n").unwrap(), "@as [");
    assert_eq!(Sysproxy::get_bypass(&gnome(), b"[]").unwrap(), "");
    assert_eq!(
        Sysproxy::get_bypass(&kde(), b"localhost, 127.0.0.1/8\n").unwrap(),
        "localhost,127.0.0.1/8"
    );
    assert_eq!(parse_error(&Sysproxy::get_bypass(&kde(), &[0xc3])), Some("bypass".to_string()));
}

#[test]
fn reads_gnome_proxy() {
    let out = ProxyOutput::Gnome { host: b"'127.0.0.1'\n".to_vec(), port: b"7890\n".to_vec() };
    assert_eq!(Sysproxy::get_http(&out).unwrap(), proxy(false, "127.0.0.1", 7890, ""));
    let out = ProxyOutput::Gnome { host: b"''\n".to_vec(), port: b"not a port".to_vec() };
    assert_eq!(Sysproxy::get_https(&out).unwrap(), proxy(false, "", 0, ""));
    let out = ProxyOutput::Gnome { host: vec![0xff], port: b"1".to_vec() };
    assert_eq!(parse_error(&Sysproxy::get_socks(&out)), Some("host".to_string()));
    let out = ProxyOutput::Gnome { host: b"'h'".to_vec(), port: vec![0xff] };
    assert_eq!(parse_error(&get_proxy(&out)), Some("port".to_string()));
}

#[test]
fn reads_kde_proxy() {
    let read = |v: &[u8]| get_proxy(&ProxyOutput::Kde { value: v.to_vec() });
    assert_eq!(read(b"http://127.0.0.1:7890\n").unwrap(), proxy(false, "127.0.0.1", 7890, ""));
    assert_eq!(read(b"socks5://h:1080").unwrap(), proxy(false, "h", 1080, ""));
    assert_eq!(read(b"http://proxy 3128").unwrap(), proxy(false, "proxy", 3128, ""));
    assert_eq!(read(b"'q':12").unwrap(), proxy(false, "q", 12, ""));
    assert_eq!(read(b"h:x").unwrap(), proxy(false, "h", 0, ""));
    assert_eq!(read(b"\n").unwrap(), proxy(false, "", 0, ""));
    assert_eq!(parse_error(&read(b"garbage\n")), Some("garbage".to_string()));
    assert_eq!(parse_error(&read(&[0x80])), Some("schema".to_string()));
}

#[test]
fn merges_services_preferring_socks_then_http() {
    let r = Sysproxy::get_system_proxy(
        true,
        proxy(false, "", 1, ""),
        proxy(false, "https-host", 2, ""),
        proxy(false, "http-host", 3, ""),
        Ok("localhost".to_string()),
    );
    assert_eq!(r, proxy(true, "http-host", 3, "localhost"));
    let r = Sysproxy::get_system_proxy(
        false,
        proxy(false, "", 1, ""),
        proxy(false, "https-host", 2, ""),
        proxy(false, "", 3, ""),
        Err(Error::NotSupport),
    );
    assert_eq!(r, proxy(false, "https-host", 2, ""));
    let r = Sysproxy::get_system_proxy(
        true,
        proxy(false, "socks-host", 1, ""),
        proxy(false, "https-host", 2, ""),
        proxy(false, "http-host", 3, ""),
        Ok(String::new()),
    );
    assert_eq!(r, proxy(true, "socks-host", 1, ""));
    let r = Sysproxy::get_system_proxy(
        true,
        proxy(false, "", 1, ""),
        proxy(false, "", 2, ""),
        proxy(false, "", 3, ""),
        Ok(String::new()),
    );
    assert_eq!(r, proxy(true, "", 1, ""));
}

#[test]
fn check_reports_enable_flag() {
    assert_eq!(Sysproxy::check(Ok(proxy(true, "h", 1, ""))).unwrap(), true);
    assert!(matches!(Sysproxy::check(Err(Error::NetworkInterface)), Err(Error::NetworkInterface)));
}

#[test]
fn enable_parses_host_and_port() {
    assert_eq!(Sysproxy::enable("127.0.0.1:7890").unwrap(), proxy(true, "127.0.0.1", 7890, ""));
    assert_eq!(Sysproxy::enable("::1:80").unwrap(), proxy(true, "::1", 80, ""));
    assert_eq!(parse_error(&Sysproxy::enable("noport")), Some("noport".to_string()));
    assert_eq!(parse_error(&Sysproxy::enable("h:99999")), Some("h:99999".to_string()));
    assert_eq!(parse_error(&Sysproxy::enable("h:")), Some("h:".to_string()));
}

#[test]
fn gvariant_list_quotes_entries() {
    assert_eq!(to_gvariant_list("localhost, 127.0.0.1/8"), "['localhost', '127.0.0.1/8']");
    assert_eq!(to_gvariant_list(""), "['']");
    assert_eq!(to_gvariant_list("it's"), "['it\\'s']");
}

#[test]
fn writes_system_proxy_on_gnome() {
    let p = proxy(true, "127.0.0.1", 7890, "localhost,127.0.0.1/8");
    let cmds: Vec<_> = p.set_system_proxy(&gnome()).iter().map(cmd).collect();
    let set = |schema: &str, key: &str, v: &str| c("gsettings", &["set", schema, key, v]);
    assert_eq!(
        cmds,
        vec![
            set("org.gnome.system.proxy", "mode", "'manual'"),
            set("org.gnome.system.proxy.socks", "host", "'127.0.0.1'"),
            set("org.gnome.system.proxy.socks", "port", "7890"),
            set("org.gnome.system.proxy.https", "host", "'127.0.0.1'"),
            set("org.gnome.system.proxy.https", "port", "7890"),
            set("org.gnome.system.proxy.http", "host", "'127.0.0.1'"),
            set("org.gnome.system.proxy.http", "port", "7890"),
            set("org.gnome.system.proxy", "ignore-hosts", "['localhost', '127.0.0.1/8']"),
        ]
    );
}

#[test]
fn writes_system_proxy_on_kde() {
    let p = proxy(false, "h'x", 8080, "a");
    let cmds: Vec<_> = p.set_system_proxy(&kde()).iter().map(cmd).collect();
    let kw = |key: &str, v: &str| {
        c(
            "kwriteconfig6",
            &["--file", "/home/u/.config/kioslaverc", "--group", "Proxy Settings", "--key", key, v],
        )
    };
    let set = |schema: &str, key: &str, v: &str| c("gsettings", &["set", schema, key, v]);
    assert_eq!(
        cmds,
        vec![
            kw("ProxyType", "0"),
            set("org.gnome.system.proxy", "mode", "'none'"),
            set("org.gnome.system.proxy.socks", "host", "'h\\'x'"),
            set("org.gnome.system.proxy.socks", "port", "8080"),
            kw("socksProxy", "socks://h'x:8080"),
            set("org.gnome.system.proxy.https", "host", "'h\\'x'"),
            set("org.gnome.system.proxy.https", "port", "8080"),
            kw("httpsProxy", "http://h'x:8080"),
            set("org.gnome.system.proxy.http", "host", "'h\\'x'"),
            set("org.gnome.system.proxy.http", "port", "8080"),
            kw("httpProxy", "http://h'x:8080"),
            set("org.gnome.system.proxy", "ignore-hosts", "['a']"),
            kw("NoProxyFor", "a"),
        ]
    );
}

#[test]
fn enable_flag_writes_the_rest_of_self() {
    let p = proxy(true, "h", 1, "b");
    for d in [gnome(), kde()] {
        let a: Vec<_> = p.set_system_proxy_enable(false, &d).iter().map(cmd).collect();
        let b: Vec<_> = proxy(false, "h", 1, "b").set_system_proxy(&d).iter().map(cmd).collect();
        assert_eq!(a, b);
    }
    assert_eq!(p, proxy(true, "h", 1, "b"));
}

#[test]
fn disable_writes_only_the_mode() {
    let d: Vec<_> = Sysproxy::disable(&kde()).iter().map(cmd).collect();
    assert_eq!(
        d,
        vec![
            c(
                "kwriteconfig6",
                &["--file", "/home/u/.config/kioslaverc", "--group", "Proxy Settings", "--key", "ProxyType", "0"]
            ),
            c("gsettings", &["set", "org.gnome.system.proxy", "mode", "'none'"]),
        ]
    );
    let g: Vec<_> = Sysproxy::disable(&gnome()).iter().map(cmd).collect();
    assert_eq!(g, vec![c("gsettings", &["set", "org.gnome.system.proxy", "mode", "'none'"])]);
    assert_eq!(Sysproxy::get_enable(&gnome(), Sysproxy::disable(&gnome())[0].args[3].as_bytes()).unwrap(), false);
}

#[test]
fn written_system_proxy_reads_back() {
    for d in [gnome(), kde()] {
        let p = proxy(true, "proxy.local", 3128, " localhost , 10.0.0.0/8 ");
        let writes = p.set_system_proxy(&d);
        let value = |program: &str, key: &str| -> Vec<u8> {
            let w = writes
                .iter()
                .find(|w| w.program == program && w.args.iter().any(|a| a == key))
                .unwrap();
            format!("{}\n", w.args.last().unwrap()).into_bytes()
        };
        let enable;
        let bypass;
        let mut read = Vec::new();
        if d.kde {
            enable = Sysproxy::get_enable(&d, &value("kwriteconfig6", "ProxyType")).unwrap();
            for key in ["socksProxy", "httpsProxy", "httpProxy"] {
                read.push(get_proxy(&ProxyOutput::Kde { value: value("kwriteconfig6", key) }).unwrap());
            }
            bypass = Sysproxy::get_bypass(&d, &value("kwriteconfig6", "NoProxyFor"));
        } else {
            enable = Sysproxy::get_enable(&d, &value("gsettings", "mode")).unwrap();
            for schema in ["socks", "https", "http"] {
                let s = format!("org.gnome.system.proxy.{}", schema);
                let host = writes.iter().find(|w| w.args[1] == s && w.args[2] == "host").unwrap();
                let port = writes.iter().find(|w| w.args[1] == s && w.args[2] == "port").unwrap();
                read.push(
                    get_proxy(&ProxyOutput::Gnome {
                        host: host.args[3].clone().into_bytes(),
                        port: port.args[3].clone().into_bytes(),
                    })
                    .unwrap(),
                );
            }
            bypass = Sysproxy::get_bypass(&d, &value("gsettings", "ignore-hosts"));
        }
        let http = read.pop().unwrap();
        let https = read.pop().unwrap();
        let socks = read.pop().unwrap();
        let back = Sysproxy::get_system_proxy(enable, socks, https, http, bypass);
        assert_eq!(back, proxy(true, "proxy.local", 3128, "localhost,10.0.0.0/8"));
    }
}

#[test]
fn auto_proxy_reads_and_writes() {
    let a = Autoproxy::get_auto_proxy(&gnome(), b"'auto'\n", b"'http://example.com/proxy.pac'\n");
    assert_eq!(a.unwrap(), Autoproxy { enable: true, url: "http://example.com/proxy.pac".into() });
    let a = Autoproxy::get_auto_proxy(&kde(), b"2\n", b"http://x/p.pac\n").unwrap();
    assert_eq!(a, Autoproxy { enable: true, url: "http://x/p.pac".into() });
    let a = Autoproxy::get_auto_proxy(&kde(), b"1\n", b"'q'").unwrap();
    assert_eq!(a, Autoproxy { enable: false, url: "'q'".into() });
    assert_eq!(parse_error(&Autoproxy::get_auto_proxy(&kde(), &[0xff], b"")), Some("mode".into()));
    assert_eq!(parse_error(&Autoproxy::get_auto_proxy(&kde(), b"", &[0xff])), Some("url".into()));

    let a = Autoproxy { enable: true, url: "http://example.com/proxy.pac".into() };
    let cmds: Vec<_> = a.set_auto_proxy(&kde()).iter().map(cmd).collect();
    let kw = |key: &str, v: &str| {
        c(
            "kwriteconfig6",
            &["--file", "/home/u/.config/kioslaverc", "--group", "Proxy Settings", "--key", key, v],
        )
    };
    assert_eq!(
        cmds,
        vec![
            kw("ProxyType", "2"),
            kw("Proxy Config Script", "http://example.com/proxy.pac"),
            c("gsettings", &["set", "org.gnome.system.proxy", "mode", "'auto'"]),
            c("gsettings", &["set", "org.gnome.system.proxy", "autoconfig-url", "http://example.com/proxy.pac"]),
        ]
    );
    let off = Autoproxy { enable: false, url: String::new() };
    assert_eq!(off.set_auto_proxy(&gnome()).len(), 2);
}

#[test]
fn written_proxy_reads_back_on_gnome() {
    let p = proxy(true, "10.0.0.1", 3128, "");
    let cmds = p.set_http(&gnome());
    let host = format!("{}\n", cmds[0].args[3]);
    let port = format!("{}\n", cmds[1].args[3]);
    let out = ProxyOutput::Gnome { host: host.into_bytes(), port: port.into_bytes() };
    assert_eq!(get_proxy(&out).unwrap(), proxy(false, "10.0.0.1", 3128, ""));
}

#[test]
fn written_proxy_reads_back_on_kde() {
    for service in [Service::Socks, Service::Https, Service::Http] {
        let p = proxy(true, "proxy.local", 1080, "");
        let cmds = netru::linux::set_proxy(&p, service, &kde());
        let value = format!("{}\n", cmds[2].args[6]);
        let out = ProxyOutput::Kde { value: value.into_bytes() };
        assert_eq!(get_proxy(&out).unwrap(), proxy(false, "proxy.local", 1080, ""));
    }
}

#[test]
fn written_bypass_reads_back() {
    let p = proxy(false, "", 0, " localhost ,127.0.0.1/8, *.lan");
    let g = p.set_bypass(&gnome());
    let back = Sysproxy::get_bypass(&gnome(), g[0].args[3].as_bytes()).unwrap();
    assert_eq!(back, "localhost,127.0.0.1/8,*.lan");
    let k = p.set_bypass(&kde());
    let back_kde = Sysproxy::get_bypass(&kde(), k[1].args[6].as_bytes()).unwrap();
    assert_eq!(back_kde, back);
}

#[test]
fn written_mode_reads_back() {
    for enable in [true, false] {
        let p = proxy(enable, "h", 1, "");
        let g = p.set_enable(&gnome());
        assert_eq!(Sysproxy::get_enable(&gnome(), g[0].args[3].as_bytes()).unwrap(), enable);
        let k = p.set_enable(&kde());
        assert_eq!(Sysproxy::get_enable(&kde(), k[0].args[6].as_bytes()).unwrap(), enable);
    }
}

#[test]
fn enable_reads_back_written_address() {
    for (host, port) in [("127.0.0.1", 7890u16), ("::1", 0), ("", 65535)] {
        let addr = format!("{}:{}", host, port);
        assert_eq!(Sysproxy::enable(&addr).unwrap(), proxy(true, host, port, ""));
    }
}
