use openwhatsapp::customizations::{
    check_fetch_url, css_script, entry_to_row, escape_js_string, injection_script, is_https_url,
    is_userstyle, kind_from_db, kind_to_db, load_entry, parse_uuid_column, row_to_entry,
    source_from_db, source_to_db, CustomizationEntry, CustomizationKind, CustomizationSource,
    FetchRefusal, LoadedCustomization,
};
use openwhatsapp::userstyle::{extract_whatsapp_css, matching_brace};

#[test]
fn https_requirement_is_stable() {
    let url = "https://example.com/a.css";

    assert!(is_https_url(url));
}

#[test]
fn plain_http_is_refused() {
    assert_eq!(check_fetch_url("https://example.com/a.css"), Ok(()));
    assert_eq!(
        check_fetch_url("http://example.com/a.css"),
        Err(FetchRefusal::NotHttps)
    );
    assert!(!is_https_url("https:/"));
}

#[test]
fn extracts_whatsapp_domain_block() {
    let css = "x\n@-moz-document domain(\"web.whatsapp.com\") {\n  body { color: red; }\n}\ny";

    assert_eq!(
        extract_whatsapp_css(css),
        Some("body { color: red; }".to_string())
    );
}

#[test]
fn userstyle_without_whatsapp_block_has_none() {
    assert_eq!(extract_whatsapp_css("body { color: red; }"), None);
    assert_eq!(
        extract_whatsapp_css("@-moz-document domain(\"web.whatsapp.com\") { a {"),
        None
    );
}

#[test]
fn every_whatsapp_block_is_extracted() {
    let css = "@-moz-document domain(\"web.whatsapp.com\") { a {} }\n@-moz-document domain(\"web.whatsapp.com\") { b {} }";
    assert_eq!(extract_whatsapp_css(css), Some("a {}\nb {}".to_string()));
}

#[test]
fn blank_whatsapp_blocks_are_left_out() {
    let css = "@-moz-document domain(\"web.whatsapp.com\") {  }\n@-moz-document domain(\"web.whatsapp.com\") { b {} }";
    assert_eq!(extract_whatsapp_css(css), Some("b {}".to_string()));
    assert_eq!(
        extract_whatsapp_css("@-moz-document domain(\"web.whatsapp.com\") { \n }"),
        None
    );
}

#[test]
fn extraction_stops_at_an_unclosed_block() {
    let css = "@-moz-document domain(\"web.whatsapp.com\") { a {} }\n@-moz-document domain(\"web.whatsapp.com\") { b {";
    assert_eq!(extract_whatsapp_css(css), Some("a {}".to_string()));
}

#[test]
fn js_escape_handles_mixed_text() {
    assert_eq!(escape_js_string("say \"hi\"\n\tend\\"), "say \\\"hi\\\"\\n\\tend\\\\");
    assert_eq!(escape_js_string("plain é"), "plain é");
}

#[test]
fn matching_brace_skips_nested_blocks() {
    assert_eq!(matching_brace("{a{b}c}d", 0), Some(6));
    assert_eq!(matching_brace("{a{b}c", 0), None);
}

#[test]
fn matching_brace_counts_bytes() {
    assert_eq!(matching_brace("é{x}", 1), Some(4));
    assert_eq!(matching_brace("{é}", 0), Some(3));
    assert_eq!(matching_brace("ab", 9), None);
}

#[test]
fn userstyle_detection_uses_suffix() {
    assert!(is_userstyle("a.user.css"));
    assert!(!is_userstyle("a.css"));
}

#[test]
fn js_escape_handles_quotes() {
    assert_eq!(escape_js_string("a\"b"), "a\\\"b");
}

#[test]
fn js_string_escape_handles_quotes_and_newlines() {
    assert_eq!(escape_js_string("a\"b\nc"), "a\\\"b\\nc");
}

#[test]
fn js_escape_handles_backslashes_and_tabs() {
    assert_eq!(escape_js_string("\\\t\r"), "\\\\\\t\\r");
}

#[test]
fn kinds_and_sources_round_trip_through_db_text() {
    assert_eq!(kind_to_db(CustomizationKind::Css), "css");
    assert_eq!(kind_to_db(CustomizationKind::Js), "js");
    assert_eq!(kind_from_db(kind_to_db(CustomizationKind::Js)), CustomizationKind::Js);
    assert_eq!(kind_from_db("other"), CustomizationKind::Css);
    assert_eq!(source_to_db(CustomizationSource::Url), "url");
    assert_eq!(source_from_db(source_to_db(CustomizationSource::File)), CustomizationSource::File);
    assert_eq!(source_from_db("other"), CustomizationSource::File);
}

fn sample_entry() -> CustomizationEntry {
    CustomizationEntry {
        id: 0x1111_2222_3333_4444_5555_6666_7777_8888,
        account_id: Some(0xaaaa_bbbb_cccc_dddd_eeee_ffff_0000_1111),
        path: "/tmp/a.css".to_string(),
        kind: CustomizationKind::Css,
        enabled: true,
        source: CustomizationSource::Url,
        url: Some("https://example.com/a.css".to_string()),
        etag: Some("\"v1\"".to_string()),
    }
}

#[test]
fn store_round_trips_enabled_entry() {
    let entry = CustomizationEntry {
        id: 0x0123_4567_89ab_cdef_0123_4567_89ab_cdef,
        account_id: None,
        path: "/tmp/a.css".to_string(),
        kind: CustomizationKind::Css,
        enabled: true,
        source: CustomizationSource::File,
        url: None,
        etag: None,
    };

    assert_eq!(row_to_entry(&entry_to_row(&entry)), Ok(entry));
}

#[test]
fn entry_row_round_trips_with_account() {
    let entry = sample_entry();
    let row = entry_to_row(&entry);

    assert_eq!(row.id, "11112222-3333-4444-5555-666677778888");
    assert_eq!(row.kind, "css");
    assert_eq!(row.source, "url");
    assert_eq!(row_to_entry(&row), Ok(entry));
}

#[test]
fn entry_row_with_bad_account_reports_column_one() {
    let mut row = entry_to_row(&sample_entry());
    row.account_id = Some("nope".to_string());
    assert_eq!(row_to_entry(&row), Err(1));

    row.id = "nope".to_string();
    assert_eq!(row_to_entry(&row), Err(0));
    assert_eq!(parse_uuid_column("nope", 4), Err(4));
}

#[test]
fn userstyle_entry_loads_only_the_whatsapp_block() {
    let mut entry = sample_entry();
    entry.path = "/tmp/theme.user.css".to_string();
    let content = "@-moz-document domain(\"web.whatsapp.com\") { a { b: c; } }".to_string();
    let loaded = load_entry(&entry, content);

    assert_eq!(loaded.content, "a { b: c; }");

    entry.kind = CustomizationKind::Js;
    let js = load_entry(&entry, "console.log(1)".to_string());
    assert_eq!(js.content, "console.log(1)");
}

#[test]
fn css_is_wrapped_in_a_style_script() {
    let loaded = LoadedCustomization {
        kind: CustomizationKind::Css,
        content: "a{content:\"x\"}".to_string(),
    };

    assert_eq!(injection_script(&loaded), css_script("a{content:\"x\"}"));
    assert_eq!(
        css_script("b"),
        "(() => { const style = document.createElement('style'); style.dataset.openwhatsapp = 'true'; style.textContent = \"b\"; document.documentElement.appendChild(style); })();"
    );

    let js = LoadedCustomization {
        kind: CustomizationKind::Js,
        content: "run()".to_string(),
    };
    assert_eq!(injection_script(&js), "run()");
}
