use var_desktop::report::{report_export_payload, ReportPayload};

#[test]
fn report_text_wins_over_base64() {
    match report_export_payload(Some("<html/>".to_string()), Some("AAAA".to_string())) {
        Ok(ReportPayload::Text(t)) => assert_eq!(t, "<html/>"),
        other => panic!("unexpected {other:?}"),
    }
}

#[test]
fn report_base64_is_decoded() {
    match report_export_payload(None, Some("aGVsbG8=".to_string())) {
        Ok(ReportPayload::Binary(bytes)) => assert_eq!(bytes, b"hello".to_vec()),
        other => panic!("unexpected {other:?}"),
    }
    assert!(report_export_payload(None, Some("***".to_string())).is_err());
}

#[test]
fn report_without_content_is_refused() {
    assert_eq!(report_export_payload(None, None).unwrap_err(), "缺少导出内容");
}
