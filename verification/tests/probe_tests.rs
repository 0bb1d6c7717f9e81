use gosh_dl::error::{EngineError, NetworkErrorKind};
use gosh_dl::http::probe::{
    capabilities_from_headers, check_probe_status, disposition_name, download_name,
    parse_content_disposition, render_extended_disposition, render_quoted_disposition,
    DispositionName, ProbeHeaders,
};

#[test]
fn test_parse_content_disposition() {
    assert_eq!(
        parse_content_disposition("attachment; filename=\"test.zip\""),
        Some("test.zip".to_string())
    );

    assert_eq!(
        parse_content_disposition("attachment; filename=test.zip"),
        Some("test.zip".to_string())
    );

    assert_eq!(
        parse_content_disposition("attachment; filename*=UTF-8''test%20file.zip"),
        Some("test file.zip".to_string())
    );
}

#[test]
fn test_content_disposition_edges() {
    assert_eq!(parse_content_disposition("attachment"), None);
    assert_eq!(parse_content_disposition("attachment; filename=\"never closed"), None);
    assert_eq!(
        parse_content_disposition("attachment; filename= spaced.zip ; size=3"),
        Some("spaced.zip".to_string())
    );
    assert_eq!(
        parse_content_disposition("attachment; filename=\"a;b.zip\"; size=3"),
        Some("a;b.zip".to_string())
    );
    assert_eq!(parse_content_disposition("attachment; filename="), Some("".to_string()));
    assert_eq!(parse_content_disposition("attachment; filename*=UTF-8'en'x.zip"), None);
    assert_eq!(
        parse_content_disposition("attachment; filename*=UTF-8''na%C3%AFve.txt; x=y"),
        Some("na\u{ef}ve.txt".to_string())
    );
    assert_eq!(parse_content_disposition("attachment; filename*=UTF-8''bad%FF"), None);
    assert_eq!(
        parse_content_disposition("attachment; filename*=UTF-8''ext.zip; filename=\"plain.zip\""),
        Some("plain.zip".to_string())
    );
}

#[test]
fn test_disposition_name_forms() {
    assert!(matches!(disposition_name("inline"), DispositionName::Absent));
    assert!(matches!(
        disposition_name("attachment; filename=a.zip"),
        DispositionName::Plain(n) if n == "a.zip"
    ));
    assert!(matches!(
        disposition_name("attachment; filename*=UTF-8''a%20b"),
        DispositionName::Encoded(n) if n == "a%20b"
    ));
}

#[test]
fn test_rendered_disposition_is_read_back() {
    for name in ["test.zip", "with space.txt", "semi;colon.bin", "na\u{ef}ve \u{4e2d}\u{6587}.txt", "100%.txt", ""] {
        let quoted = render_quoted_disposition(name);
        assert_eq!(quoted, format!("attachment; filename=\"{}\"", name));
        assert_eq!(parse_content_disposition(&quoted), Some(name.to_string()), "{}", name);
        let extended = render_extended_disposition(name);
        assert!(extended.starts_with("attachment; filename*=UTF-8''"));
        assert_eq!(parse_content_disposition(&extended), Some(name.to_string()), "{}", name);
    }
    assert_eq!(
        render_extended_disposition("test file.zip"),
        "attachment; filename*=UTF-8''test%20file.zip"
    );
    let tricky = render_extended_disposition("a\"b'c");
    assert_eq!(parse_content_disposition(&tricky), Some("a\"b'c".to_string()));
}

#[test]
fn test_parse_render_parse_gives_the_same_name() {
    for header in [
        "attachment; filename=\"test.zip\"",
        "attachment; filename=\"two words.zip\"; size=9",
        "attachment; filename*=UTF-8''test%20file.zip",
        "attachment; filename*=utf-8''%E4%B8%AD%E6%96%87.txt",
    ] {
        let name = parse_content_disposition(header).unwrap();
        assert_eq!(parse_content_disposition(&render_quoted_disposition(&name)), Some(name.clone()));
        assert_eq!(parse_content_disposition(&render_extended_disposition(&name)), Some(name));
    }
}

#[test]
fn test_probe_status() {
    assert!(check_probe_status(200).is_ok());
    assert!(check_probe_status(206).is_ok());
    assert!(check_probe_status(299).is_ok());
    for status in [199, 300, 304, 404, 500] {
        match check_probe_status(status) {
            Err(EngineError::Network { kind, message }) => {
                assert_eq!(kind, NetworkErrorKind::HttpStatus(status));
                assert_eq!(message, format!("HEAD request returned: HTTP {}", status));
            }
            other => panic!("accepted: {:?}", other),
        }
    }
}

#[test]
fn test_capabilities() {
    let headers = ProbeHeaders {
        content_length: Some("104857600".to_string()),
        accept_ranges: Some("bytes".to_string()),
        etag: Some("\"abc\"".to_string()),
        last_modified: Some("Wed, 21 Oct 2015 07:28:00 GMT".to_string()),
        content_disposition: Some("attachment; filename=\"big.iso\"".to_string()),
    };
    let c = capabilities_from_headers(&headers);
    assert_eq!(c.content_length, Some(104857600));
    assert!(c.supports_range);
    assert_eq!(c.etag, Some("\"abc\"".to_string()));
    assert_eq!(c.last_modified, Some("Wed, 21 Oct 2015 07:28:00 GMT".to_string()));
    assert_eq!(c.suggested_filename, Some("big.iso".to_string()));
}

#[test]
fn test_capabilities_of_a_bare_answer() {
    let headers = ProbeHeaders {
        content_length: Some("12 bytes".to_string()),
        accept_ranges: Some("none".to_string()),
        etag: None,
        last_modified: None,
        content_disposition: None,
    };
    let c = capabilities_from_headers(&headers);
    assert_eq!(c.content_length, None);
    assert!(!c.supports_range);
    assert_eq!(c.suggested_filename, None);
    let none = ProbeHeaders {
        content_length: None,
        accept_ranges: None,
        etag: None,
        last_modified: None,
        content_disposition: None,
    };
    let c = capabilities_from_headers(&none);
    assert_eq!(c.content_length, None);
    assert!(!c.supports_range);
}

#[test]
fn test_download_name() {
    let given = Some("mine.bin".to_string());
    let suggested = Some("../../evil:name.".to_string());
    assert_eq!(download_name(&given, &suggested), "mine.bin");
    assert_eq!(download_name(&None, &suggested), ".._.._evil_name");
    assert_eq!(download_name(&None, &Some("report.pdf".to_string())), "report.pdf");
    assert_eq!(download_name(&None, &Some("".to_string())), "download");
    assert_eq!(download_name(&None, &None), "download");
}
