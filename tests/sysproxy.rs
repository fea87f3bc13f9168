use sysproxy::adapter::{next_step, Assignment, Query, Step};
use sysproxy::codec::{format_bracket_list, parse_endpoint, parse_list, strip_brackets};
use sysproxy::store::{command, config_path, detect, Setting};
use sysproxy::{strip_str, Desktop, Error, Field, Reply, Service, Sysproxy};

fn ok(s: &str) -> Reply {
    Ok(s.as_bytes().to_vec())
}

fn proxy(enable: bool, host: &str, port: u16, bypass: &str) -> Sysproxy {
    Sysproxy { enable, host: host.to_string(), port, bypass: bypass.to_string() }
}

/// What the store answers after the plan was written: each value followed by
/// a newline, as the tools print it.
fn replies_of(plan: &[Assignment]) -> Vec<Reply> {
    plan.iter().map(|a| ok(&format!("{}\n", a.value))).collect()
}

fn values(plan: &[Assignment]) -> Vec<(Setting, String)> {
    plan.iter().map(|a| (a.setting, a.value.clone())).collect()
}

#[test]
fn strip_str_removes_one_pair() {
    assert_eq!(strip_str("'a'"), "a");
    assert_eq!(strip_str("''a''"), "'a'");
    assert_eq!(strip_str("'a"), "'a");
    assert_eq!(strip_str("a'"), "a'");
    assert_eq!(strip_str("'"), "'");
    assert_eq!(strip_str("''"), "");
    assert_eq!(strip_str(""), "");
}

#[test]
fn strip_str_twice_is_once_on_singly_quoted() {
    for s in ["'a'", "a", "'a", "", "'", "'x.com'"] {
        assert_eq!(strip_str(strip_str(s)), strip_str(s));
    }
}

#[test]
fn parse_endpoint_of_ini_encoding() {
    let (host, port) = parse_endpoint("socks://10.0.0.1 1080").unwrap();
    assert_eq!(host, "10.0.0.1");
    assert_eq!(port, 1080);
    let (host, port) = parse_endpoint("http://'h' 8080").unwrap();
    assert_eq!(host, "h");
    assert_eq!(port, 8080);
}

#[test]
fn parse_endpoint_without_space_fails() {
    assert_eq!(parse_endpoint("http://host:80"), Err(Error::ParseStr(Field::Schema)));
}

#[test]
fn parse_endpoint_bad_port_is_80() {
    assert_eq!(parse_endpoint("http://h x").unwrap().1, 80);
    assert_eq!(parse_endpoint("http://h 70000").unwrap().1, 80);
    assert_eq!(parse_endpoint("http://h +81").unwrap().1, 81);
}

#[test]
fn bypass_lists() {
    assert_eq!(strip_brackets("['a', 'b']"), "'a', 'b'");
    assert_eq!(strip_brackets("[a"), "[a");
    assert_eq!(strip_brackets("a]"), "a]");
    assert_eq!(strip_brackets("[]"), "");
    assert_eq!(parse_list("'a', 'b'"), "a,b");
    assert_eq!(format_bracket_list("a.com, b.com"), "['a.com', 'b.com']");
    assert_eq!(format_bracket_list("\"a\",'b"), "[\"a\", 'b']");
    assert_eq!(format_bracket_list(""), "['']");
    assert_eq!(format_bracket_list("a,,b"), "['a', '', 'b']");
    assert_eq!(format_bracket_list("'a"), "['a']");
}

#[test]
fn detect_desktops() {
    assert_eq!(detect(&Some("GNOME".to_string())), Desktop::Gnome);
    assert_eq!(detect(&Some("KDE".to_string())), Desktop::Kde);
    assert_eq!(detect(&Some("gnome".to_string())), Desktop::Unsupported);
    assert_eq!(detect(&Some("XFCE".to_string())), Desktop::Unsupported);
    assert_eq!(detect(&None), Desktop::Unsupported);
}

#[test]
fn unsupported_desktop_refuses_everything() {
    let d = detect(&None);
    let p = proxy(true, "h", 1, "a");
    let rs = vec![ok("'manual'")];
    assert!(matches!(Sysproxy::reads(d, Query::System), Err(Error::NotSupport)));
    assert_eq!(Sysproxy::get_enable(d, &rs), Err(Error::NotSupport));
    assert_eq!(Sysproxy::get_bypass(d, &rs), Err(Error::NotSupport));
    assert!(matches!(Sysproxy::get_http(d, &rs), Err(Error::NotSupport)));
    assert!(matches!(Sysproxy::get_https(d, &rs), Err(Error::NotSupport)));
    assert!(matches!(Sysproxy::get_socks(d, &rs), Err(Error::NotSupport)));
    assert!(matches!(Sysproxy::get_system_proxy(d, &rs), Err(Error::NotSupport)));
    assert!(matches!(p.set_enable(d), Err(Error::NotSupport)));
    assert!(matches!(p.set_bypass(d), Err(Error::NotSupport)));
    assert!(matches!(p.set_http(d), Err(Error::NotSupport)));
    assert!(matches!(p.set_https(d), Err(Error::NotSupport)));
    assert!(matches!(p.set_socks(d), Err(Error::NotSupport)));
    assert!(matches!(p.set_system_proxy(d), Err(Error::NotSupport)));
    assert!(matches!(command(d, "", Setting::Mode, None), Err(Error::NotSupport)));
    assert!(matches!(config_path(d), Err(Error::NotSupport)));
}

#[test]
fn enable_round_trip_both_desktops() {
    for d in [Desktop::Gnome, Desktop::Kde] {
        for enable in [true, false] {
            let plan = proxy(enable, "", 0, "").set_enable(d).unwrap();
            assert_eq!(Sysproxy::get_enable(d, &replies_of(&plan)), Ok(enable));
        }
    }
}

#[test]
fn enable_values() {
    let on = proxy(true, "", 0, "");
    let off = proxy(false, "", 0, "");
    assert_eq!(values(&on.set_enable(Desktop::Gnome).unwrap()), vec![(Setting::Mode, "'manual'".to_string())]);
    assert_eq!(values(&off.set_enable(Desktop::Gnome).unwrap()), vec![(Setting::Mode, "'none'".to_string())]);
    assert_eq!(values(&on.set_enable(Desktop::Kde).unwrap()), vec![(Setting::Mode, "1".to_string())]);
    assert_eq!(values(&off.set_enable(Desktop::Kde).unwrap()), vec![(Setting::Mode, "0".to_string())]);
    assert_eq!(Sysproxy::get_enable(Desktop::Gnome, &vec![ok("'none'")]), Ok(false));
    assert_eq!(Sysproxy::get_enable(Desktop::Kde, &vec![ok("2")]), Ok(false));
}

#[test]
fn enable_read_errors() {
    assert_eq!(Sysproxy::get_enable(Desktop::Gnome, &vec![Ok(vec![0xff, 0xfe])]), Err(Error::ParseStr(Field::Mode)));
    assert_eq!(Sysproxy::get_enable(Desktop::Gnome, &vec![]), Err(Error::Io));
    assert_eq!(Sysproxy::get_enable(Desktop::Kde, &vec![Err(Error::Xdg)]), Err(Error::Xdg));
}

#[test]
fn endpoint_round_trip_both_desktops() {
    for d in [Desktop::Gnome, Desktop::Kde] {
        for port in [0u16, 80, 8080, 65535] {
            let p = proxy(false, "h", port, "");
            let got = Sysproxy::get_http(d, &replies_of(&p.set_http(d).unwrap())).unwrap();
            assert_eq!((got.host.as_str(), got.port), ("h", port));
            let got = Sysproxy::get_https(d, &replies_of(&p.set_https(d).unwrap())).unwrap();
            assert_eq!((got.host.as_str(), got.port), ("h", port));
            let got = Sysproxy::get_socks(d, &replies_of(&p.set_socks(d).unwrap())).unwrap();
            assert_eq!((got.host.as_str(), got.port), ("h", port));
        }
    }
}

#[test]
fn endpoint_encodings() {
    let p = proxy(false, "proxy.local", 8080, "");
    assert_eq!(
        values(&p.set_https(Desktop::Gnome).unwrap()),
        vec![
            (Setting::Host(Service::Https), "'proxy.local'".to_string()),
            (Setting::Port(Service::Https), "8080".to_string()),
        ]
    );
    assert_eq!(
        values(&p.set_https(Desktop::Kde).unwrap()),
        vec![(Setting::Host(Service::Https), "http://proxy.local 8080".to_string())]
    );
    assert_eq!(
        values(&p.set_socks(Desktop::Kde).unwrap()),
        vec![(Setting::Host(Service::Socks), "socks://proxy.local 8080".to_string())]
    );
}

#[test]
fn gnome_port_read() {
    let rs = vec![ok("'h'\n"), ok("8080\n")];
    let p = Sysproxy::get_http(Desktop::Gnome, &rs).unwrap();
    assert_eq!((p.host.as_str(), p.port, p.enable, p.bypass.as_str()), ("h", 8080, false, ""));
    let rs = vec![ok("'h'"), ok("port")];
    assert_eq!(Sysproxy::get_http(Desktop::Gnome, &rs).unwrap().port, 80);
    let rs = vec![ok("'h'"), Ok(vec![0xc3])];
    assert!(matches!(Sysproxy::get_http(Desktop::Gnome, &rs), Err(Error::ParseStr(Field::Port))));
    let rs = vec![Ok(vec![0xc3]), ok("1")];
    assert!(matches!(Sysproxy::get_http(Desktop::Gnome, &rs), Err(Error::ParseStr(Field::Host))));
}

#[test]
fn kde_endpoint_read_errors() {
    let rs = vec![ok("http://nospace")];
    assert!(matches!(Sysproxy::get_socks(Desktop::Kde, &rs), Err(Error::ParseStr(Field::Schema))));
    let rs = vec![Ok(vec![0xff])];
    assert!(matches!(Sysproxy::get_socks(Desktop::Kde, &rs), Err(Error::ParseStr(Field::Schema))));
}

#[test]
fn bypass_round_trip_both_desktops() {
    for d in [Desktop::Gnome, Desktop::Kde] {
        let plan = proxy(true, "", 0, "a.com,b.com").set_bypass(d).unwrap();
        assert_eq!(Sysproxy::get_bypass(d, &replies_of(&plan)), Ok("a.com,b.com".to_string()));
    }
}

#[test]
fn bypass_values() {
    let p = proxy(true, "", 0, "a.com, b.com");
    assert_eq!(values(&p.set_bypass(Desktop::Gnome).unwrap()), vec![(Setting::Bypass, "['a.com', 'b.com']".to_string())]);
    assert_eq!(values(&p.set_bypass(Desktop::Kde).unwrap()), vec![(Setting::Bypass, "a.com, b.com".to_string())]);
    assert_eq!(Sysproxy::get_bypass(Desktop::Kde, &vec![ok("a, 'b' ,c\n")]), Ok("a,b,c".to_string()));
    assert_eq!(Sysproxy::get_bypass(Desktop::Gnome, &vec![ok("@as []\n")]), Ok("@as []".to_string()));
}

fn gnome_system(socks: (&str, &str), https: (&str, &str), http: (&str, &str), bypass: Reply) -> Vec<Reply> {
    vec![ok("'manual'"), ok(socks.0), ok(socks.1), ok(https.0), ok(https.1), ok(http.0), ok(http.1), bypass]
}

#[test]
fn system_read_falls_back_to_http() {
    let rs = gnome_system(("''", "0"), ("''", "0"), ("'proxy.local'", "8080"), ok("['x']"));
    let p = Sysproxy::get_system_proxy(Desktop::Gnome, &rs).unwrap();
    assert_eq!((p.host.as_str(), p.port), ("proxy.local", 8080));
    assert!(p.enable);
    assert_eq!(p.bypass, "x");
}

#[test]
fn system_read_https_overrides_http() {
    let rs = gnome_system(("''", "0"), ("'b'", "443"), ("'a'", "80"), ok("[]"));
    let p = Sysproxy::get_system_proxy(Desktop::Gnome, &rs).unwrap();
    assert_eq!((p.host.as_str(), p.port), ("b", 443));
}

#[test]
fn system_read_keeps_socks() {
    let rs = vec![ok("0"), ok("socks://s 1080"), ok("http://b 443"), ok("http://a 80"), ok("x,y")];
    let p = Sysproxy::get_system_proxy(Desktop::Kde, &rs).unwrap();
    assert_eq!((p.host.as_str(), p.port, p.enable, p.bypass.as_str()), ("s", 1080, false, "x,y"));
}

#[test]
fn system_read_bypass_failure_is_empty() {
    let rs = gnome_system(("'s'", "1"), ("''", "0"), ("''", "0"), Err(Error::Io));
    let p = Sysproxy::get_system_proxy(Desktop::Gnome, &rs).unwrap();
    assert_eq!(p.bypass, "");
    let rs = vec![ok("1"), ok("socks://s 1"), ok("http:// 0"), ok("http:// 0")];
    assert_eq!(Sysproxy::get_system_proxy(Desktop::Kde, &rs).unwrap().bypass, "");
}

#[test]
fn system_read_endpoint_failure() {
    let rs = vec![ok("1"), ok("socks://s 1"), ok("nospace"), ok("http://a 1"), ok("")];
    assert!(matches!(Sysproxy::get_system_proxy(Desktop::Kde, &rs), Err(Error::ParseStr(Field::Schema))));
}

#[test]
fn system_reads_order() {
    let g = Sysproxy::reads(Desktop::Gnome, Query::System).unwrap();
    assert_eq!(
        g,
        vec![
            Setting::Mode,
            Setting::Host(Service::Socks),
            Setting::Port(Service::Socks),
            Setting::Host(Service::Https),
            Setting::Port(Service::Https),
            Setting::Host(Service::Http),
            Setting::Port(Service::Http),
            Setting::Bypass,
        ]
    );
    let k = Sysproxy::reads(Desktop::Kde, Query::Proxy(Service::Http)).unwrap();
    assert_eq!(k, vec![Setting::Host(Service::Http)]);
}

#[test]
fn system_write_order() {
    let p = proxy(true, "h", 1, "a");
    let w = values(&p.set_system_proxy(Desktop::Kde).unwrap());
    assert_eq!(
        w,
        vec![
            (Setting::Mode, "1".to_string()),
            (Setting::Host(Service::Socks), "socks://h 1".to_string()),
            (Setting::Host(Service::Https), "http://h 1".to_string()),
            (Setting::Host(Service::Http), "http://h 1".to_string()),
            (Setting::Bypass, "a".to_string()),
        ]
    );
    let off = proxy(false, "h", 1, "a");
    assert_eq!(values(&off.set_system_proxy(Desktop::Gnome).unwrap()), vec![(Setting::Mode, "'none'".to_string())]);
    assert_eq!(p.set_system_proxy(Desktop::Gnome).unwrap().len(), 8);
}

#[test]
fn commands() {
    let c = command(Desktop::Gnome, "", Setting::Port(Service::Https), None).unwrap();
    assert_eq!(c.program, "gsettings");
    assert_eq!(c.args, vec!["get", "org.gnome.system.proxy.https", "port"]);
    let c = command(Desktop::Gnome, "", Setting::Bypass, Some("['a']")).unwrap();
    assert_eq!(c.args, vec!["set", "org.gnome.system.proxy", "ignore-hosts", "['a']"]);
    let c = command(Desktop::Kde, "/c/kioslaverc", Setting::Host(Service::Socks), None).unwrap();
    assert_eq!(c.program, "kreadconfig5");
    assert_eq!(c.args, vec!["--file", "/c/kioslaverc", "--group", "Proxy Settings", "--key", "socksProxy"]);
    let c = command(Desktop::Kde, "/c/kioslaverc", Setting::Mode, Some("1")).unwrap();
    assert_eq!(c.program, "kwriteconfig5");
    assert_eq!(c.args, vec!["--file", "/c/kioslaverc", "--group", "Proxy Settings", "--key", "ProxyType", "1"]);
}

#[test]
fn config_paths() {
    assert_eq!(config_path(Desktop::Gnome), Ok(String::new()));
    match config_path(Desktop::Kde) {
        Ok(p) => assert!(p.ends_with("kioslaverc")),
        Err(e) => assert!(e == Error::Xdg || e == Error::ParseStr(Field::Config)),
    }
}

#[test]
fn steps_run_in_order_until_done() {
    let mut outs: Vec<Result<(), Error>> = Vec::new();
    assert_eq!(next_step(3, &outs), Step::Run(0));
    outs.push(Ok(()));
    assert_eq!(next_step(3, &outs), Step::Run(1));
    outs.push(Ok(()));
    outs.push(Ok(()));
    assert_eq!(next_step(3, &outs), Step::Done);
    assert_eq!(next_step(0, &Vec::<Result<(), Error>>::new()), Step::Done);
}

#[test]
fn steps_stop_at_first_failure() {
    let outs: Vec<Result<(), Error>> = vec![Ok(()), Err(Error::Io)];
    assert_eq!(next_step(5, &outs), Step::Failed(Error::Io));
    let outs: Vec<Result<(), Error>> = vec![Ok(()), Err(Error::Xdg), Err(Error::Io)];
    assert_eq!(next_step(5, &outs), Step::Failed(Error::Xdg));
    let replies: Vec<Reply> = vec![ok("1"), Err(Error::Io)];
    assert_eq!(next_step(5, &replies), Step::Failed(Error::Io));
}
