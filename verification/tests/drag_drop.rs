use openwhatsapp::drag_drop::{attach_event_script, parse_uri_list};

#[test]
fn uri_list_parser_ignores_comments_and_blanks() {
    assert_eq!(
        parse_uri_list("# comment\n\nfile:///tmp/a.png\nfile:///tmp/b.pdf\n"),
        vec![
            "file:///tmp/a.png".to_string(),
            "file:///tmp/b.pdf".to_string()
        ]
    );
}

#[test]
fn uri_list_parser_trims_crlf_lines() {
    assert_eq!(
        parse_uri_list("  file:///a \r\n#x\r\nfile:///b"),
        vec!["file:///a".to_string(), "file:///b".to_string()]
    );
    assert!(parse_uri_list("").is_empty());
}

#[test]
fn drop_event_script_lists_quoted_uris() {
    let uris = vec!["file:///a\"b".to_string(), "file:///c".to_string()];

    assert_eq!(
        attach_event_script(&uris),
        "window.dispatchEvent(new CustomEvent('openwhatsapp-files-dropped', { detail: { uris: [\"file:///a\\\"b\",\"file:///c\"] } }));"
    );
}
