use blah::{
    annotate_message, annotate_trimmed, ends_in_image_extension, is_absolute_image_uri, is_data_image_uri, is_img_uri, is_uri_char,
    wrap_image,
};

#[test]
fn uri_char_accepts_letters_digits_and_safe_punctuation() {
    for c in ['a', 'Z', '0', '9', '+', '/', '=', '-', '_', '.', ':', ';', '~', '!'] {
        assert!(is_uri_char(c), "{:?}", c);
    }
}

#[test]
fn uri_char_rejects_unsafe_and_non_ascii() {
    for c in ['"', '%', '<', '>', '[', '\\', ']', '^', '`', '{', '|', '}', ' ', '\n', 'é'] {
        assert!(!is_uri_char(c), "{:?}", c);
    }
}

#[test]
fn url_with_upper_case_extension_is_an_image() {
    assert_eq!(
        annotate_message("http://x.com/a.JPG"),
        "<img src=\"http://x.com/a.JPG\" alt=\"inline image\" />"
    );
}

#[test]
fn url_extensions_jpeg_and_png() {
    assert!(is_img_uri("http://x.com/a.jpeg"));
    assert!(is_img_uri("https://x.com/dir/b.PNG"));
    assert!(!is_img_uri("http://x.com/a.gif"));
    assert!(!is_img_uri("http://x.com/a.jpg.txt"));
}

#[test]
fn url_like_text_with_other_extension_passes_verbatim() {
    assert_eq!(annotate_message("http://x.com/page.html"), "http://x.com/page.html");
}

#[test]
fn text_that_is_no_uri_is_not_an_image() {
    assert!(!is_img_uri("my holiday.png"));
    assert_eq!(annotate_message("my holiday.png"), "my holiday.png");
}

#[test]
fn base64_data_image_is_wrapped() {
    assert_eq!(
        annotate_message("data:image/png;base64,QUJD"),
        "<img src=\"data:image/png;base64,QUJD\" alt=\"inline image\" />"
    );
}

#[test]
fn plain_text_is_unchanged() {
    assert_eq!(annotate_message("not a url"), "not a url");
}

#[test]
fn data_image_with_space_is_unchanged() {
    assert_eq!(
        annotate_message("data:image/png;base64,abc def"),
        "data:image/png;base64,abc def"
    );
}

#[test]
fn data_image_without_semicolon_is_unchanged() {
    assert!(!is_img_uri("data:image/png,QUJD"));
}

#[test]
fn data_image_without_base64_marker_is_unchanged() {
    assert!(!is_img_uri("data:image/png;utf8,QUJD"));
    assert!(!is_img_uri("data:image/png;base64"));
}

#[test]
fn data_image_subtype_length_bound() {
    assert!(is_img_uri("data:image/12345678;base64,QUJD"));
    assert!(is_img_uri("data:image/123456789;base64,QUJD"));
    assert!(is_img_uri("data:image/1234567890;base64,QUJD"));
    assert!(!is_img_uri("data:image/12345678901;base64,QUJD"));
    assert!(!is_img_uri("data:image/svg+xmlabcdef;base64,QUJD"));
}

#[test]
fn data_image_with_illegal_characters_is_unchanged() {
    for bad in ["%", "<", "\"", "{", "|", "é"] {
        let s = format!("data:image/png;base64,QU{}JD", bad);
        assert_eq!(annotate_message(&s), s);
    }
}

#[test]
fn data_image_with_empty_payload_is_an_image() {
    assert!(is_img_uri("data:image/gif;base64,"));
}

#[test]
fn surrounding_white_space_is_trimmed() {
    assert_eq!(annotate_message("  hello there \n"), "hello there");
    assert_eq!(
        annotate_message("\t http://img.test/pic.png  "),
        "<img src=\"http://img.test/pic.png\" alt=\"inline image\" />"
    );
}

#[test]
fn empty_and_blank_text_become_empty() {
    assert_eq!(annotate_message(""), "");
    assert_eq!(annotate_message("   "), "");
}

#[test]
fn annotation_is_repeatable() {
    for s in ["hello", "http://x.com/a.png", "data:image/png;base64,QUJD", " x "] {
        assert_eq!(annotate_message(s), annotate_message(s));
    }
}

#[test]
fn non_images_come_back_trimmed() {
    for s in ["hello", " spaced  ", "http://x.com/", "data:image/png;base64,", "a.png b"] {
        if !is_img_uri(s.trim()) {
            assert_eq!(annotate_message(s), s.trim());
        }
    }
}

#[test]
fn image_extensions_are_matched_case_sensitively() {
    assert!(ends_in_image_extension("a.jpg"));
    assert!(ends_in_image_extension(".jpeg"));
    assert!(ends_in_image_extension("x/y.png"));
    assert!(!ends_in_image_extension("a.PNG"));
    assert!(!ends_in_image_extension("png"));
    assert!(!ends_in_image_extension(""));
}

#[test]
fn data_image_check_on_its_own() {
    assert!(is_data_image_uri("data:image/png;base64,QUJD"));
    assert!(!is_data_image_uri("data:image"));
    assert!(!is_data_image_uri("DATA:image/png;base64,QUJD"));
    assert!(!is_data_image_uri(" data:image/png;base64,QUJD"));
}

#[test]
fn image_markup() {
    assert_eq!(wrap_image("p.png"), "<img src=\"p.png\" alt=\"inline image\" />");
}

#[test]
fn url_path_decides_not_query_or_fragment() {
    assert!(is_img_uri("http://x.com/a.png?x=1"));
    assert!(is_img_uri("http://x.com/a.JPEG#top"));
    assert!(!is_img_uri("http://x.com/page?img=a.png"));
}

#[test]
fn relative_references_are_not_images() {
    assert!(!is_img_uri("/a.png"));
    assert!(!is_img_uri("a.png"));
    assert_eq!(annotate_message("/a.png"), "/a.png");
}

#[test]
fn absolute_image_uri_from_parts() {
    assert!(is_absolute_image_uri(true, true, "/a.png"));
    assert!(!is_absolute_image_uri(false, true, "/a.png"));
    assert!(!is_absolute_image_uri(true, false, "/a.png"));
    assert!(!is_absolute_image_uri(true, true, "/a.gif"));
}

#[test]
fn trimmed_text_is_wrapped_or_kept() {
    assert_eq!(
        annotate_trimmed("http://x.com/a.png"),
        "<img src=\"http://x.com/a.png\" alt=\"inline image\" />"
    );
    assert_eq!(annotate_trimmed("hello"), "hello");
}

#[test]
fn unicode_white_space_is_trimmed() {
    assert_eq!(annotate_message("\u{3000}hi\u{a0}\u{2028}"), "hi");
    assert_eq!(annotate_message("\u{200b}hi"), "\u{200b}hi");
}
