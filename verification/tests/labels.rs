//! The labels of the list.
use cliphist_tui::label::{classify, format_content, format_lowered, render, Label, Picture};
use cliphist_tui::media::{is_video_ext, is_video_name};

const T: &str = "\x1b[1;35m";
const P: &str = "\x1b[1;34m";
const CY: &str = "\x1b[1;36m";
const R: &str = "\x1b[0m";

fn coloured(colour: &str, body: &str) -> String {
    format!("{}{}{}", colour, body, R)
}

#[test]
fn video_extensions_of_either_case() {
    for ext in ["mp4", "mkv", "webm", "avi", "mov", "flv", "wmv", "ts"] {
        assert!(is_video_ext(&format!("a.{}", ext)));
        assert!(is_video_ext(&format!("A.{}", ext.to_uppercase())));
        assert!(!is_video_ext(&format!("a.{}x", ext)));
        assert!(!is_video_ext(ext));
    }
    assert!(is_video_ext(".ts"));
    assert!(!is_video_ext(""));
}

#[test]
fn video_names_are_taken_in_lower_case() {
    assert!(is_video_name("clip.mp4"));
    assert!(!is_video_name("clip.MP4"));
}

#[test]
fn videos_by_url_and_by_name() {
    assert_eq!(format_content("file:///a/b.mp4"), coloured(T, "[VIDEO]Url.mp4"));
    assert_eq!(format_content("/a/b.MKV"), coloured(T, "[VIDEO]File.MKV"));
    assert_eq!(format_content("notes.ts"), coloured(T, "[VIDEO]File.ts"));
}

#[test]
fn a_video_name_comes_before_every_other_label() {
    let c = "file:///home/u/xwechat/temp/a.mp4";
    assert_eq!(format_content(c), coloured(T, "[VIDEO]Url.mp4"));
    let note = "<QQRichEditFormat><EditElement type=\"7\" filepath=\"/v.mp4";
    assert_eq!(format_content(note), coloured(T, "[VIDEO]File.mp4"));
}

#[test]
fn notes_and_html_of_qq() {
    let note = "<QQRichEditFormat><EditElement type=\"7\" filepath=\"/v.mp4\"/>";
    assert_eq!(format_content(note), coloured(T, "[VIDEO_HTML]QQ"));
    assert_eq!(format_content("<QQRichEditFormat>"), "<QQRichEditFormat>");
    assert_eq!(
        format_content("<img src=\"file:///home/u/.config/QQ/a.png\">"),
        coloured(P, "[IMG_HTML]QQ")
    );
    assert_eq!(format_content("<img src=\"file:///qq/a\">"), coloured(P, "[IMG_HTML]QQ"));
    assert_eq!(format_content("<img src=\"file:///a.png\">"), "<img src=\"file:///a.png\">");
}

#[test]
fn urls_of_files() {
    assert_eq!(format_content("file:///xwechat/temp/a.png"), coloured(P, "[IMG_URL]WeChat"));
    assert_eq!(format_content("file:///a.GIF"), coloured(P, "[IMG]Url.gif"));
    assert_eq!(format_content("file:///a.PNG"), coloured(T, "[IMG]Url.PNG"));
    assert_eq!(format_content("file:///a.jpg"), coloured(T, "[IMG]Url.jpg"));
    assert_eq!(format_content("file:///a.webp"), coloured(T, "[IMG]Url.webp"));
    assert_eq!(format_content("file:///u/.config/QQ/x"), coloured(P, "[IMG_URL]QQ"));
    assert_eq!(format_content("file:///a.jpeg"), coloured(CY, "[URL]File"));
}

#[test]
fn paths_of_pictures() {
    assert_eq!(format_content("/a.gif"), coloured(P, "[IMG]Path.gif"));
    assert_eq!(format_content("/a.Webp"), coloured(T, "[IMG]Path.Webp"));
    assert_eq!(format_content("/a.txt"), "/a.txt");
    assert_eq!(format_content("a.png"), "a.png");
}

#[test]
fn binary_data() {
    for ext in ["png", "jpg", "gif", "webp", "jpeg"] {
        let c = format!("[[ binary data 12 KiB {} 3x4 ]]", ext);
        assert_eq!(format_content(&c), coloured(T, &format!("[IMG]Bin.{}", ext)));
    }
    assert_eq!(format_content("[[ binary data 1 B PNG ]]"), coloured(T, "[IMG]Bin.png"));
    assert_eq!(format_content("[[ binary data 1 B zip ]]"), coloured(CY, "[BINARY]"));
    assert_eq!(format_content("x [[ binary data png"), coloured(CY, "[BINARY]"));
}

#[test]
fn plain_content_is_unchanged() {
    for c in ["", "hello", "see [[ binary", "http://a/b.png", "表情 ß İ"] {
        assert_eq!(format_content(c), c);
    }
}

#[test]
fn unicode_capitals_are_lowered_before_the_look() {
    // The Kelvin sign is a capital whose small letter is an ASCII `k`.
    assert!(is_video_ext("a.m\u{212A}v"));
    assert_eq!(format_content("a.m\u{212A}v"), coloured(T, "[VIDEO]File.m\u{212A}v"));
}

#[test]
fn labels_by_content_and_its_lower_case() {
    assert_eq!(classify("/A.GIF", "/a.gif"), Label::GifPath);
    assert_eq!(classify("[[ binary data JPG ]]", "[[ binary data jpg ]]"), Label::ImageData(Picture::Jpg));
    assert_eq!(classify("abc", "abc"), Label::Plain);
    assert_eq!(render(Label::Binary, "abc"), coloured(CY, "[BINARY]"));
    assert_eq!(format_lowered("/A.GIF", "/a.gif"), coloured(P, "[IMG]Path.gif"));
}

#[test]
fn every_colour_is_ended() {
    for c in ["a.mp4", "file:///a", "/a.png", "[[ binary data", "<img src=\"file:///qq\">"] {
        let shown = format_content(c);
        assert!(shown.starts_with("\x1b[1;3"));
        assert!(shown.ends_with(R));
    }
}

#[test]
fn a_label_is_not_labelled_again() {
    for c in [
        "file:///a.mp4", "a.TS", "file:///xwechat/temp", "file:///a.gif", "file:///a.PNG", "file:///QQ",
        "file:///.config/QQ/", "/a.gif", "/a.webp", "[[ binary data png ]]", "[[ binary data",
        "<img src=\"file:///qq\">", "QQRichEditFormat EditElement type=\"7\"", "words",
        "/视频/a.MP4", "file:///图片/b.PNG", "a.m\u{212A}v", "Σ.mp4", "农历新年",
    ] {
        let shown = format_content(c);
        assert_eq!(format_content(&shown), shown);
    }
}

#[test]
fn ascii_case_makes_no_difference_to_a_video() {
    for s in ["/视频/a.MP4", "İ.mKv", "Σ.Ts", "/视频/a.txt", "视频", "mp4"] {
        assert_eq!(is_video_ext(&s.to_ascii_uppercase()), is_video_ext(s));
        assert_eq!(is_video_ext(&s.to_ascii_lowercase()), is_video_ext(s));
    }
}

#[test]
fn ascii_at_the_end_is_lowered_in_its_place() {
    for n in 0..=0x10FFFF_u32 {
        if let Some(c) = char::from_u32(n) {
            assert!(is_video_ext(&format!("{}.Mp4", c)));
            assert!(!is_video_ext(&format!("{}.Mp5", c)));
        }
    }
}

#[test]
fn a_video_is_one_behind_any_prefix() {
    for p in ["", "/", "file:///É", "a b\n", ".png"] {
        assert!(is_video_ext(&format!("{}x.Mp4", p)));
        assert!(is_video_name(&format!("{}x.mp4", p)));
    }
}
