use http_or_https::args::{is_port, parse_ports, parse_numbers, ArgsError, Arguments, RawArguments};
use http_or_https::arguments;
use http_or_https::ports::{parse_port_spec, ProtoPort};
use http_or_https::text::{parse_uint, push_decimal, strip_newlines, trim};

fn strings(v: &[&str]) -> Vec<String> {
    v.iter().map(|s| s.to_string()).collect()
}

fn raw(ports: &[&str], workers: &str, timeout: &str) -> RawArguments {
    RawArguments {
        targets: strings(&["example.com"]),
        ports: strings(ports),
        workers: workers.to_string(),
        timeout: timeout.to_string(),
        verbosity: 1,
        invalid_400: true,
        invalid_codes: strings(&["404"]),
        show_title: true,
        show_status: false,
        progress: false,
        delimiter: ",".to_string(),
        follow_redirect: true,
        json_file: Some("out.json".to_string()),
    }
}

fn pairs(v: &[ProtoPort]) -> Vec<(String, u16)> {
    v.iter().map(|p| (p.proto.clone(), p.port)).collect()
}

#[test]
fn is_port_accepts_bare_and_prefixed_ports() {
    assert!(is_port("80".to_string()).is_ok());
    assert!(is_port("0".to_string()).is_ok());
    assert!(is_port("65535".to_string()).is_ok());
    assert!(is_port("http:8080".to_string()).is_ok());
    assert!(is_port("https:443".to_string()).is_ok());
}

#[test]
fn is_port_rejects_bad_specs_with_message() {
    assert_eq!(
        is_port("65536".to_string()),
        Err("Invalid port '65536'. Format is [http[s]:]<0-65535>".to_string())
    );
    assert!(is_port("ftp:21".to_string()).is_err());
    assert!(is_port("http:80:1".to_string()).is_err());
    assert!(is_port("http:".to_string()).is_err());
    assert!(is_port("".to_string()).is_err());
    assert!(is_port("-1".to_string()).is_err());
    assert!(is_port(" 80".to_string()).is_err());
}

#[test]
fn bare_port_expands_to_both_protocols() {
    let v = parse_port_spec("80").unwrap();
    assert_eq!(pairs(&v), vec![("http".to_string(), 80), ("https".to_string(), 80)]);
    let v = parse_port_spec("https:8443").unwrap();
    assert_eq!(pairs(&v), vec![("https".to_string(), 8443)]);
    assert!(parse_port_spec("https:70000").is_none());
}

#[test]
fn parse_ports_keeps_order_and_reports_first_invalid() {
    let v = parse_ports(&strings(&["http:80", "443"])).ok().unwrap();
    assert_eq!(
        pairs(&v),
        vec![
            ("http".to_string(), 80),
            ("http".to_string(), 443),
            ("https".to_string(), 443)
        ]
    );
    assert_eq!(parse_ports(&strings(&["80", "x", "y"])).err(), Some("x".to_string()));
}

#[test]
fn parse_numbers_reads_each() {
    assert_eq!(parse_numbers(&strings(&["400", "+404"])), Ok(vec![400u16, 404]));
    assert_eq!(parse_numbers(&strings(&["400", "99999"])), Err("99999".to_string()));
}

#[test]
fn parse_uint_follows_std() {
    assert_eq!(parse_uint("0", 10), Some(0));
    assert_eq!(parse_uint("+7", 10), Some(7));
    assert_eq!(parse_uint("10", 10), Some(10));
    assert_eq!(parse_uint("11", 10), None);
    assert_eq!(parse_uint("", 10), None);
    assert_eq!(parse_uint("+", 10), None);
    assert_eq!(parse_uint("1a", 10), None);
    assert_eq!(parse_uint("18446744073709551615", u64::MAX), Some(u64::MAX));
    assert_eq!(parse_uint("18446744073709551616", u64::MAX), None);
    for s in ["1", "00042", "+65535", "65536", "abc"] {
        assert_eq!(parse_uint(s, 65535), s.parse::<u16>().ok().map(|v| v as u64));
    }
}

#[test]
fn decimal_and_trim_helpers() {
    let mut s = String::from("p=");
    push_decimal(&mut s, 0);
    push_decimal(&mut s, 65535);
    assert_eq!(s, "p=065535");
    assert_eq!(trim("  \t host \n"), "host");
    assert_eq!(trim("\u{3000}x y\u{a0}"), "x y");
    assert_eq!(trim("   "), "");
    assert_eq!(strip_newlines("a\nb\n"), "ab");
}

#[test]
fn parse_args_builds_settings() {
    let a = Arguments::parse_args(raw(&["80"], "2", "5000")).ok().unwrap();
    assert_eq!(a.targets, strings(&["example.com"]));
    assert_eq!(pairs(&a.proto_ports), vec![("http".to_string(), 80), ("https".to_string(), 80)]);
    assert_eq!(a.workers, 2);
    assert_eq!(a.timeout, 5000);
    assert_eq!(a.invalid_codes, vec![400, 404]);
    assert!(a.show_title && !a.show_status && a.follow_redirect);
    assert_eq!(a.delimiter, ",");
    assert_eq!(a.json_file, Some("out.json".to_string()));
}

#[test]
fn parse_args_reports_each_error() {
    assert!(matches!(
        Arguments::parse_args(raw(&["80", "bad"], "x", "y")),
        Err(ArgsError::InvalidPort(p)) if p == "bad"
    ));
    assert!(matches!(
        Arguments::parse_args(raw(&["80"], "0", "5")),
        Err(ArgsError::InvalidWorkers(w)) if w == "0"
    ));
    assert!(matches!(
        Arguments::parse_args(raw(&["80"], "4", "soon")),
        Err(ArgsError::InvalidTimeout(t)) if t == "soon"
    ));
    let mut r = raw(&["80"], "4", "5");
    r.invalid_codes = strings(&["teapot"]);
    assert!(matches!(
        Arguments::parse_args(r),
        Err(ArgsError::InvalidStatusCode(c)) if c == "teapot"
    ));
}

fn options(no_http: bool, no_https: bool) -> arguments::RawOptions {
    arguments::RawOptions {
        hosts_file: "hosts.txt".to_string(),
        ports: strings(&["80", "443"]),
        threads: "10".to_string(),
        timeout: "5".to_string(),
        verbosity: 2,
        invalid_400: true,
        progress: true,
        no_http,
        no_https,
    }
}

#[test]
fn plain_arguments_and_getters() {
    let a = arguments::Arguments::parse_args(options(true, false)).ok().unwrap();
    assert_eq!(a.hosts_filename(), "hosts.txt");
    assert_eq!(a.ports(), &vec![80u16, 443]);
    assert_eq!(a.threads(), 10);
    assert_eq!(a.timeout(), 5);
    assert_eq!(a.verbosity(), 2);
    assert!(a.invalid_400());
    assert!(a.progress());
    assert!(!a.use_http());
    assert!(a.use_https());
}

#[test]
fn plain_arguments_refuse_conflicts_and_bad_ports() {
    assert!(matches!(
        arguments::Arguments::parse_args(options(true, true)),
        Err(ArgsError::ConflictingProtocols)
    ));
    let mut o = options(false, false);
    o.ports = strings(&["http:80"]);
    assert!(matches!(
        arguments::Arguments::parse_args(o),
        Err(ArgsError::InvalidPort(p)) if p == "http:80"
    ));
}

#[test]
fn proto_port_new_keeps_fields() {
    let p = ProtoPort::new("https".to_string(), 443);
    assert_eq!(p.proto, "https");
    assert_eq!(p.port, 443);
}

#[test]
fn trim_agrees_with_std() {
    for s in ["", " ", "x", " a b ", "\u{85}q\u{2028}", "\u{200b}z", "\r\n\tk\x0b\x0c", "\u{feff}w"] {
        assert_eq!(trim(s), s.trim());
    }
}
