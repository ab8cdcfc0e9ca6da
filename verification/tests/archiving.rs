use page_manager::content_archiver::ContentArchiver;

#[test]
fn test_extract_title() {
    let archiver = ContentArchiver::new();
    let html = r#"<html><head><title>Test Page Title</title></head><body></body></html>"#;
    assert_eq!(archiver.extract_title(html), "Test Page Title");
}

#[test]
fn test_extract_title_from_h1() {
    let archiver = ContentArchiver::new();
    let html = r#"<html><body><h1>Main Heading</h1></body></html>"#;
    assert_eq!(archiver.extract_title(html), "Main Heading");
}

#[test]
fn title_is_empty_without_title_or_heading() {
    let archiver = ContentArchiver::new();
    assert_eq!(archiver.extract_title("<p>no heading</p>"), "");
}

#[test]
fn test_extract_text() {
    let archiver = ContentArchiver::new();
    let html = r#"<p>Hello <strong>World</strong>!</p>"#;
    assert_eq!(archiver.extract_text(html), "Hello World !");
}

#[test]
fn text_decodes_entities() {
    let archiver = ContentArchiver::new();
    assert_eq!(archiver.extract_text("<b>a&amp;b</b> &lt;c&gt;"), "a&b <c>");
}

#[test]
fn test_clean_html_removes_scripts() {
    let archiver = ContentArchiver::new();
    let html = r#"<p>Before</p><script>alert('test');</script><p>After</p>"#;
    let cleaned = archiver.clean_html(html);
    assert!(!cleaned.contains("script"));
    assert!(!cleaned.contains("alert"));
    assert!(cleaned.contains("Before"));
    assert!(cleaned.contains("After"));
}

#[test]
fn test_clean_html_removes_styles() {
    let archiver = ContentArchiver::new();
    let html = r#"<p>Before</p><style>.test { color: red; }</style><p>After</p>"#;
    let cleaned = archiver.clean_html(html);
    assert!(!cleaned.contains("style"));
    assert!(!cleaned.contains("color"));
}

#[test]
fn clean_html_removes_comments_and_handlers() {
    let archiver = ContentArchiver::new();
    let cleaned = archiver.clean_html(r#"<!-- hidden --><button onclick="go()">Go</button>"#);
    assert!(!cleaned.contains("hidden"));
    assert!(!cleaned.contains("onclick"));
    assert!(cleaned.contains("Go"));
}

#[test]
fn test_extract_image_urls() {
    let archiver = ContentArchiver::new();
    let html = r#"<img src="/images/test.jpg"><img src="https://example.com/photo.png">"#;
    let urls = archiver.extract_image_urls(html, "https://example.com/page");
    assert_eq!(urls.len(), 2);
    assert!(urls.contains(&"https://example.com/images/test.jpg".to_string()));
    assert!(urls.contains(&"https://example.com/photo.png".to_string()));
}

#[test]
fn image_sources_keep_repeats_and_skip_data_urls() {
    let archiver = ContentArchiver::new();
    let html = r#"<img src="/a.png"><img src="/a.png"><img src="data:image/png;base64,xx">"#;
    let urls = archiver.extract_image_urls(html, "https://example.com/");
    assert_eq!(urls, vec!["https://example.com/a.png".to_string(), "https://example.com/a.png".to_string()]);
    let html = r#"<img srcset="/b.png 1x, /b.png 2x"><div style="background: url('/b.png')">"#;
    assert_eq!(archiver.extract_image_urls(html, "https://example.com/"), vec!["https://example.com/b.png".to_string()]);
}

#[test]
fn test_resolve_url_absolute() {
    let archiver = ContentArchiver::new();
    let result = archiver.resolve_url("https://other.com/image.jpg", "https://example.com/page");
    assert_eq!(result, Some("https://other.com/image.jpg".to_string()));
}

#[test]
fn test_resolve_url_relative() {
    let archiver = ContentArchiver::new();
    let result = archiver.resolve_url("images/test.jpg", "https://example.com/page/index.html");
    assert_eq!(result, Some("https://example.com/page/images/test.jpg".to_string()));
}

#[test]
fn test_resolve_url_absolute_path() {
    let archiver = ContentArchiver::new();
    let result = archiver.resolve_url("/images/test.jpg", "https://example.com/page/index.html");
    assert_eq!(result, Some("https://example.com/images/test.jpg".to_string()));
}

#[test]
fn test_resolve_url_protocol_relative() {
    let archiver = ContentArchiver::new();
    let result = archiver.resolve_url("//cdn.example.com/image.jpg", "https://example.com/page");
    assert_eq!(result, Some("https://cdn.example.com/image.jpg".to_string()));
}

#[test]
fn resolve_url_refuses_data_and_bad_bases() {
    let archiver = ContentArchiver::new();
    assert_eq!(archiver.resolve_url("data:image/png;base64,xx", "https://example.com/"), None);
    assert_eq!(archiver.resolve_url("img.png", "not a base"), None);
    assert_eq!(
        archiver.resolve_url("../up.png", "https://example.com/a/b/c.html"),
        Some("https://example.com/a/up.png".to_string())
    );
}

#[test]
fn test_extract_links() {
    let archiver = ContentArchiver::new();
    let html = r#"
            <a href="/internal">Internal</a>
            <a href="https://external.com/page">External</a>
            <a href="https://example.com/other">Same Domain</a>
        "#;
    let (internal, external) = archiver.extract_links(html, "https://example.com/page");
    assert!(internal.contains(&"https://example.com/internal".to_string()));
    assert!(internal.contains(&"https://example.com/other".to_string()));
    assert!(external.contains(&"https://external.com/page".to_string()));
}

#[test]
fn test_word_count() {
    let archiver = ContentArchiver::new();
    let text = "This is a test sentence with seven words.";
    assert_eq!(archiver.count_words(text), 8);
}

#[test]
fn test_reading_time() {
    let archiver = ContentArchiver::new();
    assert_eq!(archiver.estimate_reading_time(225), 1);
    assert_eq!(archiver.estimate_reading_time(450), 2);
    assert_eq!(archiver.estimate_reading_time(100), 1);
}

#[test]
fn reading_time_edges() {
    let archiver = ContentArchiver::new();
    assert_eq!(archiver.estimate_reading_time(0), 0);
    assert_eq!(archiver.estimate_reading_time(226), 2);
}

#[test]
fn test_extract_attribute() {
    let archiver = ContentArchiver::new();
    let tag = r#"<img src="test.jpg" alt="Test Image">"#;
    assert_eq!(archiver.extract_attribute(tag, "src"), Some("test.jpg".to_string()));
    assert_eq!(archiver.extract_attribute(tag, "alt"), Some("Test Image".to_string()));
    assert_eq!(archiver.extract_attribute(tag, "class"), None);
}

#[test]
fn test_extract_attribute_single_quotes() {
    let archiver = ContentArchiver::new();
    let tag = r#"<img src='test.jpg'>"#;
    assert_eq!(archiver.extract_attribute(tag, "src"), Some("test.jpg".to_string()));
}

#[test]
fn test_is_supported_image() {
    let archiver = ContentArchiver::new();
    assert!(archiver.is_supported_image("https://example.com/image.jpg"));
    assert!(archiver.is_supported_image("https://example.com/image.PNG"));
    assert!(archiver.is_supported_image("https://example.com/image.webp?v=123"));
    assert!(!archiver.is_supported_image("https://example.com/document.pdf"));
}

#[test]
fn test_generate_media_filename() {
    let archiver = ContentArchiver::new();
    let filename = archiver.generate_media_filename("https://example.com/images/photo.jpg");
    assert!(filename.ends_with(".jpg"));
    assert!(filename.contains("photo"));
}

#[test]
fn test_guess_mime_type() {
    let archiver = ContentArchiver::new();
    assert_eq!(archiver.guess_mime_type("test.jpg"), Some("image/jpeg".to_string()));
    assert_eq!(archiver.guess_mime_type("test.png"), Some("image/png".to_string()));
    assert_eq!(archiver.guess_mime_type("test.gif"), Some("image/gif".to_string()));
    assert_eq!(archiver.guess_mime_type("test.mp4"), Some("video/mp4".to_string()));
    assert_eq!(archiver.guess_mime_type("test.unknown"), None);
}

#[test]
fn content_archiver_test_calculate_checksum() {
    let archiver = ContentArchiver::new();
    let checksum1 = archiver.calculate_checksum("test content");
    let checksum2 = archiver.calculate_checksum("test content");
    let checksum3 = archiver.calculate_checksum("different content");
    assert_eq!(checksum1, checksum2);
    assert_ne!(checksum1, checksum3);
}

#[test]
fn test_extract_content() {
    let archiver = ContentArchiver::new();
    let html = r#"
            <html>
            <head><title>Test Page</title></head>
            <body>
                <h1>Welcome</h1>
                <p>This is a test paragraph with some content.</p>
                <img src="/images/test.jpg">
                <a href="/internal">Internal Link</a>
                <a href="https://external.com">External Link</a>
                <script>alert('removed');</script>
            </body>
            </html>
        "#;
    let extracted = archiver.extract_content(html, "https://example.com/page");
    assert_eq!(extracted.title, "Test Page");
    assert!(extracted.text.contains("Welcome"));
    assert!(extracted.text.contains("test paragraph"));
    assert!(!extracted.text.contains("alert"));
    assert_eq!(extracted.image_urls.len(), 1);
    assert!(extracted.internal_links.len() >= 1);
    assert!(extracted.external_links.len() >= 1);
    assert!(extracted.word_count > 0);
}

#[test]
fn test_normalize_path() {
    let archiver = ContentArchiver::new();
    assert_eq!(archiver.normalize_path("/a/b/../c"), "/a/c");
    assert_eq!(archiver.normalize_path("/a/./b/c"), "/a/b/c");
    assert_eq!(archiver.normalize_path("/a/b/c/../.."), "/a");
}

#[test]
fn normalize_path_edges() {
    let archiver = ContentArchiver::new();
    assert_eq!(archiver.normalize_path("/../.."), "/");
    assert_eq!(archiver.normalize_path("a//b/"), "/a/b");
    assert_eq!(archiver.normalize_path(""), "/");
}

#[test]
fn test_extract_domain() {
    let archiver = ContentArchiver::new();
    assert_eq!(archiver.extract_domain("https://example.com/page"), "example.com");
    assert_eq!(archiver.extract_domain("https://sub.example.com:8080/page"), "sub.example.com");
    assert_eq!(archiver.extract_domain("http://EXAMPLE.COM/"), "example.com");
}

#[test]
fn compression_is_identity() {
    let archiver = ContentArchiver::new();
    let text = "some page text";
    assert_eq!(archiver.decompress_content(&archiver.compress_content(text)), text);
}

#[test]
fn media_file_names_replace_unsafe_characters() {
    let archiver = ContentArchiver::new();
    let name = archiver.generate_media_filename("https://x.com/img/a b@c.png?x=1");
    assert!(name.starts_with("a_b_c_"));
    assert!(name.ends_with(".png"));
    let plain = archiver.generate_media_filename("https://x.com/img/photo-1_2.jpg");
    assert!(plain.starts_with("photo-1_2_"));
}

#[test]
fn tag_removal_ignores_case_of_the_tag() {
    let r = ContentArchiver::remove_tag_with_content("a<SCRIPT type='t'>x</script>b", "script");
    assert_eq!(r, "ab");
}

#[test]
fn tag_removal_after_a_long_prefix() {
    let prefix = "p".repeat(998);
    let html = format!("{}<script>bad()</script>tail", prefix);
    let r = ContentArchiver::remove_tag_with_content(&html, "script");
    assert_eq!(r, format!("{}tail", prefix));
    let archiver = ContentArchiver::new();
    let cleaned = archiver.clean_html(&html);
    assert!(!cleaned.contains("bad()"));
}

#[test]
fn comment_removal_after_a_long_prefix() {
    let prefix = "q".repeat(999);
    let html = format!("{}<!-- secret -->end", prefix);
    let r = ContentArchiver::remove_html_comments(&html);
    assert_eq!(r, format!("{}end", prefix));
}

#[test]
fn each_closed_element_goes_with_its_content() {
    let r = ContentArchiver::remove_tag_with_content("ab<script x>1</script>cd<script>2</script>e", "script");
    assert_eq!(r, "abcde");
}
