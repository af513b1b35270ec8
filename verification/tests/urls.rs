//! `file://` URLs.
use cliphist_tui::url::{encode_path, file_url, file_url_path};

#[test]
fn slashes_and_unreserved_characters_are_kept() {
    assert_eq!(encode_path("/home/u/a-b_c.d~e"), "/home/u/a-b_c.d~e");
    assert_eq!(encode_path("/a b/ü%2F"), "/a%20b/%C3%BC%252F");
    assert_eq!(encode_path(""), "");
}

#[test]
fn parts_of_a_path_are_encoded_on_their_own() {
    for (a, b) in [("/x y", "z\"<"), ("", "é"), ("a/b", "")] {
        let whole = encode_path(&format!("{}/{}", a, b));
        assert_eq!(whole, format!("{}/{}", encode_path(a), encode_path(b)));
    }
}

#[test]
fn a_url_names_the_path_that_it_was_made_for() {
    for path in ["/a b", "/表情/ü", "", "%41", "a\nb\r", "/x%2Fy", "\u{10FFFF}"] {
        assert_eq!(file_url_path(&file_url(path)).unwrap(), path);
    }
}

#[test]
fn escapes_of_either_case_are_decoded_and_all_else_is_kept() {
    assert_eq!(file_url_path("file:///a%20b%c3%BC+c").unwrap(), "/a bü+c");
    assert_eq!(file_url_path("file:///100%/%4/%zz%4g%").unwrap(), "/100%/%4/%zz%4g%");
    assert_eq!(file_url_path("file://").unwrap(), "");
}

#[test]
fn a_url_that_does_not_decode_to_utf8_names_no_path() {
    assert!(file_url_path("file:///%FF").is_none());
    assert!(file_url_path("file:///%C3").is_none());
}
