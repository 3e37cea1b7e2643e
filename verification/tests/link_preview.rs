use xmpp_start::link_preview::{parse_preview, preview_would_panic, try_parse_preview, LinkPreview};

const TEST_URL: &str = "https://example.com/article";

fn html(snippets: &[&str]) -> String {
    format!(
        "<!DOCTYPE html><html><head>{}</head><body></body></html>",
        snippets.join("\n")
    )
}

#[test]
fn parse_og_title() {
    let h = html(&[r#"<meta property="og:title" content="OG Title Here" />"#]);
    let preview = parse_preview(TEST_URL, &h);
    assert_eq!(preview.title, Some("OG Title Here".to_string()));
}

#[test]
fn parse_og_description() {
    let h = html(&[r#"<meta property="og:description" content="Great article about Rust." />"#]);
    let preview = parse_preview(TEST_URL, &h);
    assert_eq!(preview.description, Some("Great article about Rust.".to_string()));
}

#[test]
fn parse_og_image() {
    let h = html(&[r#"<meta property="og:image" content="https://example.com/img.png" />"#]);
    let preview = parse_preview(TEST_URL, &h);
    assert_eq!(preview.image_url, Some("https://example.com/img.png".to_string()));
}

#[test]
fn parse_fallback_title_tag() {
    // No og:title — should fall back to <title>
    let h = html(&["<title>Fallback HTML Title</title>"]);
    let preview = parse_preview(TEST_URL, &h);
    assert_eq!(preview.title, Some("Fallback HTML Title".to_string()));
}

#[test]
fn parse_site_name() {
    let h = html(&[r#"<meta property="og:site_name" content="Example Site" />"#]);
    let preview = parse_preview(TEST_URL, &h);
    assert_eq!(preview.site_name, Some("Example Site".to_string()));
}

#[test]
fn empty_html_returns_defaults() {
    let preview = parse_preview(TEST_URL, "");
    assert_eq!(preview.url, TEST_URL);
    assert_eq!(preview.title, None);
    assert_eq!(preview.description, None);
    assert_eq!(preview.image_url, None);
    assert_eq!(preview.site_name, None);
}

#[test]
fn single_quote_content_attribute() {
    let h = html(&["<meta property='og:title' content='Single Quote Title' />"]);
    let preview = parse_preview(TEST_URL, &h);
    assert_eq!(preview.title, Some("Single Quote Title".to_string()));
}

#[test]
fn og_title_takes_priority_over_html_title() {
    let h = html(&[
        r#"<meta property="og:title" content="OG Wins" />"#,
        "<title>HTML Title</title>",
    ]);
    let preview = parse_preview(TEST_URL, &h);
    assert_eq!(preview.title, Some("OG Wins".to_string()));
}

#[test]
fn twitter_image_fallback() {
    let h = html(&[r#"<meta name="twitter:image" content="https://example.com/tw.jpg" />"#]);
    let preview = parse_preview(TEST_URL, &h);
    assert_eq!(preview.image_url, Some("https://example.com/tw.jpg".to_string()));
}

#[test]
fn parse_og_image_dimensions() {
    let h = html(&[
        r#"<meta property="og:image" content="https://example.com/img.png" />"#,
        r#"<meta property="og:image:width" content="1200" />"#,
        r#"<meta property="og:image:height" content="630" />"#,
    ]);
    let preview = parse_preview(TEST_URL, &h);
    assert_eq!(preview.image_width, Some(1200));
    assert_eq!(preview.image_height, Some(630));
}

#[test]
fn og_image_dimensions_missing_when_not_present() {
    let h = html(&[r#"<meta property="og:image" content="https://example.com/img.png" />"#]);
    let preview = parse_preview(TEST_URL, &h);
    assert_eq!(preview.image_width, None);
    assert_eq!(preview.image_height, None);
}

#[test]
fn display_dimensions_scales_down_large_image() {
    let preview = LinkPreview {
        image_width: Some(1200),
        image_height: Some(630),
        ..Default::default()
    };
    let (w, h) = preview.display_dimensions(300);
    assert_eq!(w, 300);
    // 630 * (300/1200) = 157.5 → 158
    assert_eq!(h, Some(158));
}

#[test]
fn display_dimensions_keeps_small_image() {
    let preview = LinkPreview {
        image_width: Some(200),
        image_height: Some(100),
        ..Default::default()
    };
    let (w, h) = preview.display_dimensions(300);
    assert_eq!(w, 200);
    assert_eq!(h, Some(100));
}

#[test]
fn display_dimensions_fallback_when_unknown() {
    let preview = LinkPreview { ..Default::default() };
    let (w, h) = preview.display_dimensions(300);
    assert_eq!(w, 300);
    assert_eq!(h, None);
}

// --- further cases ------------------------------------------------------

#[test]
fn display_dimensions_width_only_is_capped() {
    let preview = LinkPreview { image_width: Some(800), ..Default::default() };
    assert_eq!(preview.display_dimensions(300), (300, None));
    let preview = LinkPreview { image_width: Some(100), ..Default::default() };
    assert_eq!(preview.display_dimensions(300), (100, None));
}

#[test]
fn display_dimensions_zero_width_falls_back() {
    let preview = LinkPreview { image_width: Some(0), image_height: Some(50), ..Default::default() };
    assert_eq!(preview.display_dimensions(300), (300, None));
}

#[test]
fn display_dimensions_rounds_to_nearest() {
    // 100 * 200 / 300 = 66.67 → 67
    let preview = LinkPreview { image_width: Some(300), image_height: Some(100), ..Default::default() };
    assert_eq!(preview.display_dimensions(200), (200, Some(67)));
}

#[test]
fn twitter_title_beats_html_title_and_meta_description_is_last_resort() {
    let h = html(&[
        "<title>HTML Title</title>",
        r#"<meta name="twitter:title" content="TW Title" />"#,
        r#"<meta name="description" content="Plain description" />"#,
    ]);
    let preview = parse_preview(TEST_URL, &h);
    assert_eq!(preview.title, Some("TW Title".to_string()));
    assert_eq!(preview.description, Some("Plain description".to_string()));
}

#[test]
fn first_occurrence_wins_and_attributes_match_case_insensitively() {
    let h = html(&[
        r#"<META PROPERTY="og:title" CONTENT="First" />"#,
        r#"<meta property="og:title" content="Second" />"#,
    ]);
    let preview = parse_preview(TEST_URL, &h);
    assert_eq!(preview.title, Some("First".to_string()));
}

#[test]
fn dimensions_are_trimmed_and_invalid_numbers_ignored() {
    let h = html(&[
        r#"<meta property="og:image:width" content=" 640 " />"#,
        r#"<meta property="og:image:height" content="-5" />"#,
    ]);
    let preview = parse_preview(TEST_URL, &h);
    assert_eq!(preview.image_width, Some(640));
    assert_eq!(preview.image_height, None);
}

#[test]
fn empty_title_tag_is_ignored_and_crlf_lines_are_split() {
    let h = "<title>   </title>\r\n<title> Real </title>\r\n";
    let preview = parse_preview(TEST_URL, h);
    assert_eq!(preview.title, Some("Real".to_string()));
}

#[test]
fn try_parse_preview_on_ordinary_html() {
    let h = html(&[r#"<meta property="og:title" content="T" />"#]);
    assert!(!preview_would_panic(&h));
    assert_eq!(try_parse_preview(TEST_URL, &h).unwrap().title, Some("T".to_string()));
}

#[test]
fn try_parse_preview_refuses_title_that_lowercasing_misaligns() {
    // The Kelvin sign (3 bytes) lower-cases to 'k' (1 byte), so the end of the
    // title found in the lower-cased text falls inside a character.
    let h = "<title>\u{212A}\u{212A}</title>";
    assert!(preview_would_panic(h));
    assert!(try_parse_preview(TEST_URL, h).is_none());
}
