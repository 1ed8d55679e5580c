use mailsignals::headers::HeaderStore;
use mailsignals::mime::{parse_message, ParseError};
use mailsignals::report::{analyze, assemble};
use mailsignals::signals::{
    address_pass, attachment_pass, extract_filename, extract_findings, extract_ips_from_received, extract_urls,
    get_auth_headers, get_header_addresses, is_suspicious_attachment, parse_address, process_mime_parts, scan_ips,
    spoof_pass, subject_pass, Category, Finding,
};

fn store(pairs: &[(&str, &str)]) -> HeaderStore {
    let mut hs = HeaderStore::new();
    for (n, v) in pairs {
        hs.insert(n.to_string(), v.to_string());
    }
    hs
}

fn finding(category: Category, label: &str, value: &str) -> Finding {
    Finding { category, label: label.to_string(), value: value.to_string() }
}

#[test]
fn address_with_angle_brackets() {
    assert_eq!(parse_address("\"Alice A\" <alice@x.com>"), ("Alice A".to_string(), "alice@x.com".to_string()));
    assert_eq!(parse_address("Bob < bob@y.org > trailing"), ("Bob".to_string(), "bob@y.org".to_string()));
    assert_eq!(parse_address("<c@z.net>"), ("".to_string(), "c@z.net".to_string()));
}

#[test]
fn address_without_angle_brackets() {
    assert_eq!(parse_address("  a@x.com "), ("".to_string(), "a@x.com".to_string()));
    assert_eq!(parse_address("a < b"), ("".to_string(), "a < b".to_string()));
    assert_eq!(parse_address("a > b < c"), ("".to_string(), "a > b < c".to_string()));
}

#[test]
fn address_pass_emits_name_and_email() {
    let hs = store(&[("To", "Bob <bob@y.org>")]);
    let mut out = Vec::new();
    address_pass(&hs, "To", "to name", "to email", &mut out);
    assert_eq!(
        out,
        vec![finding(Category::HeaderEcho, "to name", "Bob"), finding(Category::HeaderEcho, "to email", "bob@y.org")]
    );
    address_pass(&hs, "From", "from name", "from email", &mut out);
    assert_eq!(out.len(), 2);
}

#[test]
fn subject_is_trimmed() {
    let hs = store(&[("subject", "  Hello there ")]);
    let mut out = Vec::new();
    subject_pass(&hs, &mut out);
    assert_eq!(out, vec![finding(Category::HeaderEcho, "subject", "Hello there")]);
    let mut none = Vec::new();
    subject_pass(&store(&[]), &mut none);
    assert!(none.is_empty());
}

#[test]
fn auth_headers_come_in_fixed_order() {
    let hs = store(&[
        ("DMARC-Filter", "d"),
        ("DKIM-Signature", "k1"),
        ("Received-SPF", "pass"),
        ("dkim-signature", "k2"),
        ("Authentication-Results", "ok"),
    ]);
    let mut out = Vec::new();
    get_auth_headers(&hs, &mut out);
    assert_eq!(
        out,
        vec![
            finding(Category::AuthHeader, "Authentication-Results", "ok"),
            finding(Category::AuthHeader, "Received-SPF", "pass"),
            finding(Category::AuthHeader, "DKIM-Signature", "k1"),
            finding(Category::AuthHeader, "DMARC-Filter", "d"),
        ]
    );
}

#[test]
fn ipv4_scan_finds_sender_ip() {
    let hs = store(&[("Received", "from mail.example.com (203.0.113.5) by mx.test")]);
    let mut out = Vec::new();
    extract_ips_from_received(&hs, &mut out);
    assert_eq!(out, vec![finding(Category::SenderIp, "sender ip", "203.0.113.5")]);
}

#[test]
fn header_without_digit_dot_pattern_gives_no_ip() {
    let hs = store(&[("Received", "from mail.example.com by mx.test; 1.2.3")]);
    let mut out = Vec::new();
    extract_ips_from_received(&hs, &mut out);
    assert!(out.is_empty());
}

#[test]
fn ip_scan_is_permissive_and_ordered() {
    assert_eq!(scan_ips("a 999.999.999.999 b 10.0.0.1"), vec!["999.999.999.999".to_string(), "10.0.0.1".to_string()]);
    assert_eq!(scan_ips("1234.5.6.7"), vec!["234.5.6.7".to_string()]);
    let hs = store(&[("Received", "x 1.1.1.1 y 2.2.2.2"), ("From", "9.9.9.9"), ("received", "3.3.3.3")]);
    let mut out = Vec::new();
    extract_ips_from_received(&hs, &mut out);
    let values: Vec<&str> = out.iter().map(|f| f.value.as_str()).collect();
    assert_eq!(values, vec!["1.1.1.1", "2.2.2.2", "3.3.3.3"]);
}

#[test]
fn header_addresses_are_the_first_values() {
    let hs = store(&[("From", "a@x.com"), ("Reply-To", "b@x.com"), ("From", "c@x.com")]);
    assert_eq!(get_header_addresses(&hs), (Some("a@x.com".to_string()), Some("b@x.com".to_string())));
    assert_eq!(get_header_addresses(&store(&[])), (None, None));
}

#[test]
fn equal_from_and_reply_to_give_no_warning() {
    let mut out = Vec::new();
    spoof_pass(&store(&[("From", "a@x.com"), ("Reply-To", "a@x.com")]), &mut out);
    assert!(out.is_empty());
    spoof_pass(&store(&[("From", " a@x.com"), ("Reply-To", "a@x.com  ")]), &mut out);
    assert!(out.is_empty());
}

#[test]
fn missing_from_or_reply_to_gives_no_warning() {
    let mut out = Vec::new();
    spoof_pass(&store(&[("From", "a@x.com")]), &mut out);
    spoof_pass(&store(&[("Reply-To", "a@x.com")]), &mut out);
    spoof_pass(&store(&[]), &mut out);
    assert!(out.is_empty());
}

#[test]
fn differing_from_and_reply_to_give_one_warning() {
    let mut out = Vec::new();
    spoof_pass(&store(&[("From", "a@x.com"), ("Reply-To", "evil@y.com")]), &mut out);
    assert_eq!(
        out,
        vec![finding(Category::ReplyToSpoof, "reply-to spoofing", "From='a@x.com' Reply-To='evil@y.com'")]
    );
}

#[test]
fn same_email_under_another_name_is_a_difference() {
    let mut out = Vec::new();
    spoof_pass(&store(&[("From", "A <a@x.com>"), ("Reply-To", "a@x.com")]), &mut out);
    assert_eq!(out.len(), 1);
    assert!(out[0].value.contains("A <a@x.com>") && out[0].value.contains("Reply-To='a@x.com'"));
}

#[test]
fn url_extraction_stops_at_blank() {
    assert_eq!(extract_urls("click http://evil.test/a?b=1 now"), vec!["http://evil.test/a?b=1".to_string()]);
}

#[test]
fn url_extraction_stops_at_quotes_and_brackets() {
    assert_eq!(
        extract_urls("<a href=\"https://a.test/x\">y</a> 'http://b.test' <http://c.test/z>"),
        vec!["https://a.test/x".to_string(), "http://b.test".to_string(), "http://c.test/z".to_string()]
    );
    assert!(extract_urls("no links, ftp://x.test neither").is_empty());
}

#[test]
fn filename_quoted_and_unquoted() {
    assert_eq!(extract_filename("attachment; filename=\"invoice.exe\""), Some("invoice.exe".to_string()));
    assert_eq!(extract_filename("attachment; filename=report.pdf; size=3"), Some("report.pdf".to_string()));
    assert_eq!(extract_filename("attachment"), None);
}

#[test]
fn quoted_filename_runs_to_the_next_quote() {
    assert_eq!(extract_filename("attachment; filename=\"a;b.exe\""), Some("a;b.exe".to_string()));
    assert_eq!(extract_filename("attachment; filename=\"my file.pdf\"; size=3"), Some("my file.pdf".to_string()));
    assert_eq!(extract_filename("attachment; filename=a;b.exe"), Some("a".to_string()));
    assert_eq!(extract_filename("attachment; filename=\"\""), None);
}

#[test]
fn quoted_filename_with_semicolon_is_warned_about() {
    let mut out = Vec::new();
    attachment_pass("attachment; filename=\"a;b.exe\"", &mut out);
    assert_eq!(
        out,
        vec![
            finding(Category::HeaderEcho, "attachment filename", "a;b.exe"),
            finding(Category::SuspiciousAttachment, "suspicious attachment", "a;b.exe"),
        ]
    );
}

#[test]
fn pick_filename_prefers_the_quoted_value() {
    let d = "attachment; filename=plain.txt";
    assert_eq!(mailsignals::signals::pick_filename(Some("q.txt".to_string()), d), Some("q.txt".to_string()));
    assert_eq!(mailsignals::signals::pick_filename(None, d), Some("plain.txt".to_string()));
    assert_eq!(mailsignals::signals::pick_filename(None, "attachment"), None);
}

#[test]
fn suspicious_extensions() {
    for name in ["a.exe", "a.SCR", "a.js", "a.bat", "a.cmd", "a.vbs", "a.docm", "a.xlsm", "a.pptm", "a.zip", "x.tar.RaR"] {
        assert!(is_suspicious_attachment(name), "{}", name);
    }
    for name in ["photo.png", "exe", "a.exe.txt", "a.", "", "a.exes", "a.j"] {
        assert!(!is_suspicious_attachment(name), "{}", name);
    }
}

#[test]
fn attachment_with_listed_extension_gives_name_and_warning() {
    let mut out = Vec::new();
    attachment_pass("attachment; filename=\"invoice.exe\"", &mut out);
    assert_eq!(
        out,
        vec![
            finding(Category::HeaderEcho, "attachment filename", "invoice.exe"),
            finding(Category::SuspiciousAttachment, "suspicious attachment", "invoice.exe"),
        ]
    );
}

#[test]
fn attachment_with_harmless_extension_gives_name_only() {
    let mut out = Vec::new();
    attachment_pass("attachment; filename=\"photo.png\"", &mut out);
    assert_eq!(out, vec![finding(Category::HeaderEcho, "attachment filename", "photo.png")]);
}

#[test]
fn inline_part_gives_no_attachment_finding() {
    let mut out = Vec::new();
    attachment_pass("inline; filename=\"invoice.exe\"", &mut out);
    attachment_pass("attachment", &mut out);
    assert!(out.is_empty());
}

#[test]
fn leaf_walk_reports_type_disposition_size_urls() {
    let part = parse_message(b"Content-Type: text/plain\r\n\r\nclick http://evil.test/a?b=1 now").unwrap();
    let mut out = Vec::new();
    process_mime_parts(&part, &mut out);
    assert_eq!(
        out,
        vec![
            finding(Category::HeaderEcho, "content-type", "text/plain"),
            finding(Category::HeaderEcho, "content-disposition", "inline"),
            finding(Category::HeaderEcho, "body-size", "32"),
            finding(Category::Url, "url", "http://evil.test/a?b=1"),
        ]
    );
}

#[test]
fn body_size_is_a_decimal_numeral() {
    let part = parse_message(b"\r\n").unwrap();
    let mut out = Vec::new();
    process_mime_parts(&part, &mut out);
    assert_eq!(out[2], finding(Category::HeaderEcho, "body-size", "0"));
    let mut raw = b"\r\n".to_vec();
    raw.extend(std::iter::repeat(b'x').take(1205));
    let part = parse_message(&raw).unwrap();
    let mut out = Vec::new();
    process_mime_parts(&part, &mut out);
    assert_eq!(out[2], finding(Category::HeaderEcho, "body-size", "1205"));
}

fn sample_message() -> Vec<u8> {
    let mut raw = Vec::new();
    raw.extend_from_slice(b"Received: from mail.example.com (203.0.113.5) by mx.test\r\n");
    raw.extend_from_slice(b"From: \"Alice\" <alice@x.com>\r\n");
    raw.extend_from_slice(b"Reply-To: evil@y.com\r\n");
    raw.extend_from_slice(b"Subject:  Invoice \r\n");
    raw.extend_from_slice(b"Received-SPF: pass\r\n");
    raw.extend_from_slice(b"Content-Type: multipart/mixed; boundary=\"XX\"\r\n\r\n");
    raw.extend_from_slice(b"--XX\r\nContent-Type: text/plain\r\n\r\nsee https://pay.test/now\r\n");
    raw.extend_from_slice(b"--XX\r\nContent-Type: application/octet-stream\r\n");
    raw.extend_from_slice(b"Content-Disposition: attachment; filename=\"invoice.exe\"\r\n");
    raw.extend_from_slice(b"Content-Transfer-Encoding: base64\r\n\r\naGVsbG8gd29ybGQ=\r\n--XX--\r\n");
    raw
}

fn expected_sample_findings() -> Vec<Finding> {
    vec![
        finding(Category::HeaderEcho, "from name", "Alice"),
        finding(Category::HeaderEcho, "from email", "alice@x.com"),
        finding(Category::HeaderEcho, "reply-to name", ""),
        finding(Category::HeaderEcho, "reply-to email", "evil@y.com"),
        finding(Category::HeaderEcho, "subject", "Invoice"),
        finding(Category::AuthHeader, "Received-SPF", "pass"),
        finding(Category::SenderIp, "sender ip", "203.0.113.5"),
        finding(Category::ReplyToSpoof, "reply-to spoofing", "From='\"Alice\" <alice@x.com>' Reply-To='evil@y.com'"),
        finding(Category::HeaderEcho, "multipart", "multipart/mixed"),
        finding(Category::HeaderEcho, "content-type", "text/plain"),
        finding(Category::HeaderEcho, "content-disposition", "inline"),
        finding(Category::HeaderEcho, "body-size", "24"),
        finding(Category::Url, "url", "https://pay.test/now"),
        finding(Category::HeaderEcho, "content-type", "application/octet-stream"),
        finding(Category::HeaderEcho, "content-disposition", "attachment; filename=\"invoice.exe\""),
        finding(Category::HeaderEcho, "body-size", "11"),
        finding(Category::HeaderEcho, "attachment filename", "invoice.exe"),
        finding(Category::SuspiciousAttachment, "suspicious attachment", "invoice.exe"),
    ]
}

#[test]
fn passes_run_in_fixed_order() {
    let root = parse_message(&sample_message()).unwrap();
    assert_eq!(extract_findings(&root), expected_sample_findings());
}

#[test]
fn report_numbers_findings_from_one() {
    let findings = expected_sample_findings();
    let entries = assemble(&findings);
    assert_eq!(entries.len(), findings.len());
    for (i, e) in entries.iter().enumerate() {
        assert_eq!(e.number, i + 1);
        assert_eq!(e.finding, findings[i]);
    }
    assert!(assemble(&Vec::new()).is_empty());
}

#[test]
fn analyze_gives_tree_and_numbered_findings() {
    let analysis = analyze(&sample_message()).unwrap();
    assert_eq!(analysis.tree.children.len(), 2);
    assert_eq!(analysis.tree.children[1].body, b"hello world".to_vec());
    let expected = expected_sample_findings();
    assert_eq!(analysis.entries.len(), expected.len());
    assert_eq!(analysis.entries[0].number, 1);
    assert_eq!(analysis.entries[17].number, 18);
    assert_eq!(analysis.entries[7].finding, expected[7]);
}

#[test]
fn analyze_fails_without_separator() {
    assert_eq!(analyze(b"From: a@x.com").err(), Some(ParseError::MalformedMessage));
    assert_eq!(analyze(b"").err(), Some(ParseError::MalformedMessage));
}

#[test]
fn body_that_is_not_utf8_is_still_scanned() {
    let mut raw = b"\r\n".to_vec();
    raw.extend_from_slice(&[0xff, 0xfe, b' ']);
    raw.extend_from_slice(b"http://x.test/p ");
    raw.push(0xff);
    let part = parse_message(&raw).unwrap();
    let mut out = Vec::new();
    process_mime_parts(&part, &mut out);
    assert_eq!(out[3], finding(Category::Url, "url", "http://x.test/p"));
}

#[test]
fn report_filename_warns_on_listed_extension_only() {
    let mut out = Vec::new();
    mailsignals::signals::report_filename(None, &mut out);
    assert!(out.is_empty());
    mailsignals::signals::report_filename(Some("notes.txt".to_string()), &mut out);
    assert_eq!(out, vec![finding(Category::HeaderEcho, "attachment filename", "notes.txt")]);
    mailsignals::signals::report_filename(Some("run.BAT".to_string()), &mut out);
    assert_eq!(out.len(), 3);
    assert_eq!(out[1], finding(Category::HeaderEcho, "attachment filename", "run.BAT"));
    assert_eq!(out[2], finding(Category::SuspiciousAttachment, "suspicious attachment", "run.BAT"));
}

#[test]
fn body_urls_reads_bytes_as_text() {
    assert_eq!(mailsignals::signals::body_urls(b"see http://a.test/x\r\nand https://b.test"), vec![
        "http://a.test/x".to_string(),
        "https://b.test".to_string()
    ]);
    assert!(mailsignals::signals::body_urls(b"").is_empty());
}

#[test]
fn keep_matches_turns_nothing_into_empty() {
    assert!(mailsignals::signals::keep_matches(None).is_empty());
    assert_eq!(mailsignals::signals::keep_matches(Some(vec!["a".to_string()])), vec!["a".to_string()]);
}

#[test]
fn emit_appends_behind_what_is_there() {
    let mut out = vec![finding(Category::Url, "url", "http://a.test")];
    mailsignals::signals::emit(&mut out, Category::SenderIp, "sender ip", "1.2.3.4".to_string());
    mailsignals::signals::emit_each(&mut out, Category::Url, "url", &vec!["u1".to_string(), "u2".to_string()]);
    mailsignals::signals::emit_each(&mut out, Category::Url, "url", &Vec::new());
    assert_eq!(
        out,
        vec![
            finding(Category::Url, "url", "http://a.test"),
            finding(Category::SenderIp, "sender ip", "1.2.3.4"),
            finding(Category::Url, "url", "u1"),
            finding(Category::Url, "url", "u2"),
        ]
    );
}

#[test]
fn auth_pass_takes_the_first_value() {
    let hs = store(&[("received-spf", "pass"), ("Received-SPF", "fail")]);
    let mut out = Vec::new();
    mailsignals::signals::auth_pass(&hs, "Received-SPF", &mut out);
    mailsignals::signals::auth_pass(&hs, "DKIM-Signature", &mut out);
    assert_eq!(out, vec![finding(Category::AuthHeader, "Received-SPF", "pass")]);
}

#[test]
fn container_walk_names_type_then_children() {
    let raw = b"Content-Type: multipart/alternative; boundary=q\n\n--q\n\na\n--q\nContent-Type: text/html\n\nbb\n--q--";
    let root = parse_message(raw).unwrap();
    let mut out = Vec::new();
    process_mime_parts(&root, &mut out);
    let shown: Vec<(&str, &str)> = out.iter().map(|f| (f.label.as_str(), f.value.as_str())).collect();
    assert_eq!(
        shown,
        vec![
            ("multipart", "multipart/alternative"),
            ("content-type", "text/plain"),
            ("content-disposition", "inline"),
            ("body-size", "1"),
            ("content-type", "text/html"),
            ("content-disposition", "inline"),
            ("body-size", "2"),
        ]
    );
}
