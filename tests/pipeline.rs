use http_or_https::args::{Arguments, RawArguments};
use http_or_https::engine::{redirect_policy, AdmissionWindow, RedirectPolicy, Step, MAX_REDIRECTS};
use http_or_https::ports::ProtoPort;
use http_or_https::printer::Printer;
use http_or_https::readin::{normalize_target, read_inputs};
use http_or_https::response::{
    clean_title, get_resp_title, is_html_content_type, is_html_resp, process_outcome, render_line,
    wants_body, ProbeOutcome, Verdict,
};
use http_or_https::sink::Collector;
use http_or_https::urls::{format_url, gen_urls, urls_for_target};

fn strings(v: &[&str]) -> Vec<String> {
    v.iter().map(|s| s.to_string()).collect()
}

fn pps() -> Vec<ProtoPort> {
    vec![
        ProtoPort::new("http".to_string(), 80),
        ProtoPort::new("https".to_string(), 443),
        ProtoPort::new("http".to_string(), 8080),
    ]
}

fn success(url: &str, status: u16, ct: Option<&str>, body: Option<&str>) -> ProbeOutcome {
    ProbeOutcome::Success {
        url: url.to_string(),
        final_url: format!("{}/", url),
        status,
        content_type: ct.map(|s| s.to_string()),
        body: body.map(|s| s.to_string()),
    }
}

#[test]
fn format_url_writes_protocol_host_port() {
    let p = ProtoPort::new("https".to_string(), 8443);
    assert_eq!(format_url(&p, "10.0.0.1"), "https://10.0.0.1:8443");
    let p = ProtoPort::new("http".to_string(), 0);
    assert_eq!(format_url(&p, "h"), "http://h:0");
}

#[test]
fn expansion_covers_every_target_and_pair_once() {
    let targets = strings(&["a.com", "b.org"]);
    let urls = gen_urls(&pps(), &targets);
    assert_eq!(urls.len(), targets.len() * pps().len());
    assert_eq!(
        urls,
        strings(&[
            "http://a.com:80",
            "https://a.com:443",
            "http://a.com:8080",
            "http://b.org:80",
            "https://b.org:443",
            "http://b.org:8080",
        ])
    );
    assert_eq!(urls_for_target(&pps(), "a.com"), urls[..3].to_vec());
}

#[test]
fn expansion_keeps_duplicates() {
    let urls = gen_urls(&pps(), &strings(&["x", "x"]));
    assert_eq!(urls.len(), 6);
    assert_eq!(urls[0], urls[3]);
    assert!(gen_urls(&pps(), &Vec::new()).is_empty());
    assert!(gen_urls(&Vec::new(), &strings(&["x"])).is_empty());
}

#[test]
fn expansion_is_repeatable() {
    let targets = strings(&["one", "two", "three"]);
    let mut a = gen_urls(&pps(), &targets);
    let mut b = gen_urls(&pps(), &targets);
    a.sort();
    b.sort();
    assert_eq!(a, b);
}

#[test]
fn blank_and_comment_lines_are_dropped() {
    let lines = strings(&["  host1  ", "", "   ", "# comment", "  #x", "\thost2", "a # b"]);
    assert_eq!(read_inputs(lines), strings(&["host1", "host2", "a # b"]));
    assert_eq!(normalize_target(" 10.1.1.1\r\n"), Some("10.1.1.1".to_string()));
    assert_eq!(normalize_target("#"), None);
    assert_eq!(normalize_target(""), None);
}

#[test]
fn content_type_sniffing() {
    assert!(is_html_content_type("text/html"));
    assert!(is_html_content_type("text/html; charset=utf-8"));
    assert!(is_html_content_type("text/xml"));
    assert!(is_html_content_type("application/xhtml+xml;q=1"));
    assert!(!is_html_content_type("application/json"));
    assert!(!is_html_content_type(" text/html"));
    assert!(!is_html_content_type("TEXT/HTML"));
    assert!(!is_html_resp(&None));
    assert!(wants_body(true, &Some("text/html".to_string())));
    assert!(!wants_body(false, &Some("text/html".to_string())));
}

#[test]
fn title_of_html_page() {
    let body = Some("<html><head><title>Example</title></head></html>".to_string());
    assert_eq!(get_resp_title(true, &Some("text/html".to_string()), &body), "Example");
}

#[test]
fn title_of_json_is_empty() {
    let body = Some("<html><head><title>Example</title></head></html>".to_string());
    assert_eq!(get_resp_title(true, &Some("application/json".to_string()), &body), "");
    assert_eq!(get_resp_title(true, &None, &body), "");
    assert_eq!(get_resp_title(false, &Some("text/html".to_string()), &body), "");
}

#[test]
fn title_loses_newlines_and_missing_title_is_empty() {
    let body = Some("<title>\nMulti\nLine\n</title><title>Second</title>".to_string());
    assert_eq!(get_resp_title(true, &Some("text/html".to_string()), &body), "MultiLine");
    let body = Some("<html><body>no title</body></html>".to_string());
    assert_eq!(get_resp_title(true, &Some("text/html".to_string()), &body), "");
    assert_eq!(clean_title(Some("a\nb".to_string())), "ab");
    assert_eq!(clean_title(None), "");
}

#[test]
fn line_fields_in_order() {
    assert_eq!(render_line("http://h:80", 200, "T", true, true, " "), "http://h:80 200 T");
    assert_eq!(render_line("http://h:80", 404, "T", true, false, ";"), "http://h:80;404");
    assert_eq!(render_line("http://h:80", 404, "T", false, true, "|"), "http://h:80|T");
    assert_eq!(render_line("http://h:80", 404, "T", false, false, "|"), "http://h:80");
}

#[test]
fn transport_error_gives_no_record_and_one_warning() {
    let mut c = Collector::new(true);
    let v = process_outcome(
        ProbeOutcome::TransportError { url: "http://h:1".to_string(), error: "refused".to_string() },
        &vec![400],
        true,
        true,
        " ",
    );
    assert!(matches!(&v, Verdict::Failed { url, error } if url == "http://h:1" && error == "refused"));
    c.record(&v);
    assert_eq!(c.warnings(), 1);
    assert_eq!(c.processed(), 1);
    assert!(c.into_results().is_empty());
}

#[test]
fn invalid_status_is_rejected_whatever_the_title_setting() {
    for show_title in [false, true] {
        let mut c = Collector::new(true);
        let v = process_outcome(
            success("http://h:80", 400, Some("text/html"), Some("<title>x</title>")),
            &vec![400],
            true,
            show_title,
            " ",
        );
        assert!(matches!(&v, Verdict::Rejected { status: 400, .. }));
        c.record(&v);
        assert_eq!(c.warnings(), 1);
        assert!(c.into_results().is_empty());
    }
}

#[test]
fn accepted_response_is_reported_and_kept() {
    let mut c = Collector::new(true);
    let v = process_outcome(
        success("http://h:80", 200, Some("text/html"), Some("<title>Home</title>")),
        &vec![400],
        true,
        true,
        ",",
    );
    match &v {
        Verdict::Accepted { info, line } => {
            assert_eq!(line, "http://h:80,200,Home");
            assert_eq!(info.url, "http://h:80/");
            assert_eq!(info.status, 200);
            assert_eq!(info.title, "Home");
        }
        _ => panic!("expected an accepted response"),
    }
    c.record(&v);
    assert_eq!(c.warnings(), 0);
    let r = c.into_results();
    assert_eq!(r.len(), 1);
    assert_eq!(r[0].title, "Home");
}

#[test]
fn collector_without_keep_stores_nothing() {
    let mut c = Collector::new(false);
    let v = process_outcome(success("http://h:80", 200, None, None), &Vec::new(), false, false, " ");
    c.record(&v);
    assert_eq!(c.processed(), 1);
    assert!(c.into_results().is_empty());
}

#[test]
fn window_never_exceeds_limit() {
    let mut w = AdmissionWindow::new(2);
    assert!(w.next_step(true) == Step::StartRequest);
    assert!(w.start_request());
    assert!(w.start_request());
    assert!(!w.start_request());
    assert_eq!(w.in_flight(), 2);
    assert!(w.next_step(true) == Step::AwaitCompletion);
    w.complete();
    assert_eq!(w.in_flight(), 1);
    assert!(w.has_room());
    assert!(w.next_step(false) == Step::AwaitCompletion);
    w.complete();
    w.complete();
    assert_eq!(w.in_flight(), 0);
    assert!(w.next_step(false) == Step::Finish);
    assert_eq!(w.limit(), 2);
}

#[test]
fn redirect_policy_choice() {
    assert!(redirect_policy(true) == RedirectPolicy::Limited(MAX_REDIRECTS));
    assert!(redirect_policy(true) == RedirectPolicy::Limited(3));
    assert!(redirect_policy(false) == RedirectPolicy::Never);
}

#[test]
fn printer_lines() {
    let p = Printer::new(true, 1);
    assert_eq!(p.url_line("http://h/"), "\r\x1b[2Khttp://h/");
    assert_eq!(p.error_line("boom"), Some("\r\x1b[2K[-] boom: ".to_string()));
    let q = Printer::new(false, 0);
    assert_eq!(q.url_line("http://h/"), "http://h/");
    assert_eq!(q.error_line("boom"), None);
    assert_eq!(q.cleaner(), "");
    assert!(p.show_progress() && !q.show_progress());
    assert_eq!(p.verbosity(), 1);
}

#[test]
fn end_to_end_example_com_with_one_400() {
    let raw = RawArguments {
        targets: strings(&["example.com"]),
        ports: strings(&["80"]),
        workers: "2".to_string(),
        timeout: "5000".to_string(),
        verbosity: 0,
        invalid_400: true,
        invalid_codes: Vec::new(),
        show_title: false,
        show_status: true,
        progress: false,
        delimiter: " ".to_string(),
        follow_redirect: false,
        json_file: None,
    };
    let args = Arguments::parse_args(raw).ok().unwrap();
    let targets = read_inputs(args.targets.clone());
    let urls = gen_urls(&args.proto_ports, &targets);
    assert_eq!(urls, strings(&["http://example.com:80", "https://example.com:80"]));

    let mut window = AdmissionWindow::new(args.workers);
    let mut outstanding = Vec::new();
    let mut next = 0;
    let mut collector = Collector::new(true);
    let mut lines = Vec::new();
    loop {
        match window.next_step(next < urls.len()) {
            Step::StartRequest => {
                assert!(window.start_request());
                outstanding.push(urls[next].clone());
                next += 1;
                assert!(window.in_flight() <= args.workers);
            }
            Step::AwaitCompletion => {
                // the later request ends first
                let url = outstanding.pop().unwrap();
                let status = if url.starts_with("https") { 400 } else { 200 };
                let v = process_outcome(
                    success(&url, status, None, None),
                    &args.invalid_codes,
                    args.show_status,
                    args.show_title,
                    &args.delimiter,
                );
                if let Verdict::Accepted { line, .. } = &v {
                    lines.push(line.clone());
                }
                collector.record(&v);
                window.complete();
            }
            Step::Finish => break,
        }
    }
    assert_eq!(lines, strings(&["http://example.com:80 200"]));
    assert_eq!(collector.processed(), 2);
    assert_eq!(collector.warnings(), 1);
    let results = collector.into_results();
    assert_eq!(results.len(), 1);
    assert_eq!(results[0].url, "http://example.com:80/");
}
