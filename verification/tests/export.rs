use org_wiki::export::{html_from_output, pandoc_args, ExportError, PandocOutput};

#[test]
fn pandoc_runs_org_to_html5() {
    assert_eq!(pandoc_args(), vec!["--from", "org", "--to", "html5"]);
}

#[test]
fn successful_output_is_the_fragment() {
    let out = PandocOutput { success: true, code: Some(0), stdout: b"<p>Hello, world!</p>\n".to_vec(), stderr: vec![] };
    assert_eq!(html_from_output(out).unwrap(), "<p>Hello, world!</p>\n");
}

#[test]
fn failed_run_reports_status_and_stderr() {
    let out = PandocOutput { success: false, code: Some(64), stdout: vec![], stderr: b"bad input".to_vec() };
    match html_from_output(out) {
        Err(ExportError::PandocFailed { status, stderr }) => {
            assert_eq!(status, 64);
            assert_eq!(stderr, "bad input");
        }
        other => panic!("unexpected: {other:?}"),
    }
    let killed = PandocOutput { success: false, code: None, stdout: vec![], stderr: vec![0xff] };
    match html_from_output(killed) {
        Err(ExportError::PandocFailed { status, stderr }) => {
            assert_eq!(status, -1);
            assert_eq!(stderr, "\u{fffd}");
        }
        other => panic!("unexpected: {other:?}"),
    }
}

#[test]
fn non_utf8_output_is_an_error() {
    let out = PandocOutput { success: true, code: Some(0), stdout: vec![0x61, 0xff], stderr: vec![] };
    match html_from_output(out) {
        Err(ExportError::Utf8(m)) => assert!(m.contains("utf-8")),
        other => panic!("unexpected: {other:?}"),
    }
}
