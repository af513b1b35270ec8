//! What is previewed, copied and opened.
use cliphist_tui::content::{html_image_path, kind, qq_video_path, Kind};
use cliphist_tui::copy::{copy_actions, copy_found, copy_step, run_copy, wl_copy, CopyAction, CopyStep};
use cliphist_tui::display::Graphics;
use cliphist_tui::media::{
    cache_name, chosen_mime, clip_text, file_mime, get_mime, image_name, is_inferable, output_text,
    picture_to_store, thumbnail_name,
};
use cliphist_tui::open::{
    default_opener, open_found, open_step, opener, run_open, smart_open, OpenStep,
};
use cliphist_tui::preview::{
    inspect, preview_found, preview_opening, preview_step, preview_typed, run_preview, Opening,
    PreviewStep, ShowAs,
};
use cliphist_tui::url::file_url;

const PNG: [u8; 9] = [0x89, 0x50, 0x4E, 0x47, 0x0D, 0x0A, 0x1A, 0x0A, 0x00];
const HTML: &str = "<p>QQ</p><img src=\"file:///a/b c.png\"><img src=\"file:///z\">";
const NOTE: &str = "<QQRichEditFormat><EditElement type=\"7\" filepath=\"/v/a b.mp4\"/>";

fn previewed(raw: &str, mime: &str) -> PreviewStep<String> {
    run_preview(raw.as_bytes(), mime).unwrap()
}

fn offered(step: CopyStep<Vec<u8>, String>) -> (Vec<u8>, Option<String>, Option<(String, String)>) {
    match step {
        CopyStep::Offer { payload, mime, notice } => {
            (payload, mime, notice.map(|n| (n.title, n.body)))
        }
        other => panic!("{:?}", other),
    }
}

fn link(url: &str, title: &str, body: &str) -> (Vec<u8>, Option<String>, Option<(String, String)>) {
    (
        url.as_bytes().to_vec(),
        Some("text/uri-list".to_string()),
        Some((title.to_string(), body.to_string())),
    )
}

#[test]
fn magic_numbers_tell_the_type() {
    assert_eq!(get_mime(&PNG).unwrap(), "image/png");
    assert_eq!(get_mime(b"GIF89a....").unwrap(), "image/gif");
    assert!(get_mime(b"plain words").is_none());
}

#[test]
fn the_answer_of_file_is_trimmed() {
    assert_eq!(file_mime(Some(b" text/html\n".as_slice())), "text/html");
    assert_eq!(file_mime(Some(b"".as_slice())), "");
    assert_eq!(file_mime(None), "");
    assert_eq!(output_text(b"\n42 \r\n"), "42");
    assert_eq!(output_text(b"a\xff"), "a\u{FFFD}");
}

#[test]
fn the_text_of_an_entry_has_no_line_ends_behind_it() {
    assert_eq!(clip_text(b"a\nb\r\n\n"), "a\nb");
    assert_eq!(clip_text(b" a \xff\n"), " a \u{FFFD}");
    assert_eq!(clip_text(b"\r\n"), "");
}

#[test]
fn names_in_the_cache() {
    let digest = xxhash_rust::xxh3::xxh3_128(&PNG);
    assert_eq!(image_name(&PNG, "image/svg+xml"), format!("{:x}.svg+xml", digest));
    assert_eq!(image_name(&PNG, "image/x/y"), format!("{:x}.y", digest));
    let digest = xxhash_rust::xxh3::xxh3_128("/é.mp4".as_bytes());
    assert_eq!(thumbnail_name("/é.mp4"), format!("{:x}.png", digest));
    assert_eq!(cache_name(0xAB0, "x"), "ab0.x");
    assert_ne!(cache_name(1, "x"), cache_name(2, "x"));
}

#[test]
fn the_first_quoted_path_is_taken() {
    assert_eq!(html_image_path(HTML).unwrap(), "/a/b c.png");
    assert!(html_image_path("<img src=\"file://\"").is_none());
    assert!(html_image_path("<img src=\"file:///a").is_none());
    assert_eq!(html_image_path("<img src=\"file://\"<img src=\"file://x\ny\"").unwrap(), "x\ny");
    assert!(html_image_path("<img srC=\"file:///a\"").is_none());
    assert_eq!(qq_video_path(NOTE).unwrap(), "/v/a b.mp4");
    assert_eq!(qq_video_path("filepath=\"\" filepath=\"é\"").unwrap(), "é");
    assert!(qq_video_path("filepath='a'").is_none());
}

#[test]
fn kinds_by_priority() {
    assert_eq!(kind("image/png", NOTE, "QQ"), Kind::Picture);
    assert_eq!(kind("text/html", NOTE, "QQ"), Kind::Html);
    assert_eq!(kind("text/html", NOTE, "<img src=\"file://"), Kind::Note);
    assert_eq!(kind("text/plain", "file:///a", "QQ"), Kind::Url);
    assert_eq!(kind("text/plain", "/a", "QQ"), Kind::Path);
    assert_eq!(kind("text/plain", "a", "QQ"), Kind::Plain);
}

#[test]
fn an_empty_entry_has_no_preview() {
    assert!(matches!(previewed("", "image/png"), PreviewStep::Nothing));
}

#[test]
fn pictures_are_previewed_and_opened_from_one_file() {
    let name = image_name(&PNG, "image/png");
    match run_preview(&PNG, "image/png") {
        Some(PreviewStep::CachedImage(n)) => assert_eq!(n, name),
        other => panic!("{:?}", other),
    }
    match run_open(&PNG, "image/png") {
        Some(OpenStep::OpenCached(n)) => assert_eq!(n, name),
        other => panic!("{:?}", other),
    }
}

#[test]
fn html_is_previewed_by_its_picture() {
    match previewed(HTML, "text/html") {
        PreviewStep::AskExists { path, show } => {
            assert_eq!(path, "/a/b c.png");
            assert_eq!(show, ShowAs::Image);
            match preview_found(HTML, &path, show, true) {
                PreviewStep::Image(p) => assert_eq!(p, path),
                other => panic!("{:?}", other),
            }
            match preview_found(HTML, &path, show, false) {
                PreviewStep::Print(t) => assert_eq!(t, HTML),
                other => panic!("{:?}", other),
            }
        }
        other => panic!("{:?}", other),
    }
    assert!(matches!(previewed("QQ\n", "text/html"), PreviewStep::Print(t) if t == "QQ"));
}

#[test]
fn notes_are_previewed_by_their_video() {
    match previewed(NOTE, "text/plain") {
        PreviewStep::AskExists { path, show } => {
            assert_eq!(path, "/v/a b.mp4");
            assert!(matches!(preview_found(NOTE, &path, show, true), PreviewStep::Video(p) if p == path));
        }
        other => panic!("{:?}", other),
    }
}

#[test]
fn paths_are_previewed_by_name_or_type() {
    assert!(matches!(
        previewed("/a.txt\n", "text/plain"),
        PreviewStep::AskExists { path, show: ShowAs::Inspect } if path == "/a.txt"
    ));
    assert!(matches!(
        preview_found("/a.MP4", "/a.MP4", ShowAs::Inspect, true),
        PreviewStep::Video(p) if p == "/a.MP4"
    ));
    assert!(matches!(
        preview_found("/a", "/a", ShowAs::Inspect, true),
        PreviewStep::AskMime { path } if path == "/a"
    ));
    assert!(matches!(
        preview_found("/a", "/a", ShowAs::Inspect, false),
        PreviewStep::Print(t) if t == "/a"
    ));
    assert!(matches!(preview_typed("t", "/a", "image/png"), PreviewStep::Image(p) if p == "/a"));
    assert!(matches!(preview_typed("t", "/a", "text/plain"), PreviewStep::Print(p) if p == "t"));
    assert!(matches!(inspect("/a", true), PreviewStep::Video(p) if p == "/a"));
}

#[test]
fn urls_are_previewed_by_the_path_they_name() {
    assert!(matches!(
        previewed("file:///a%20b.mov\r\n", "text/plain"),
        PreviewStep::Video(p) if p == "/a b.mov"
    ));
    assert!(matches!(
        preview_step(b"x", "text/plain", "file:///a%20b"),
        PreviewStep::AskMime { path } if path == "/a b"
    ));
    assert!(run_preview(b"file:///%FF", "text/plain").is_none());
    assert!(run_preview(b"file:///%FF", "image/png").is_some());
    assert!(matches!(previewed("words", ""), PreviewStep::Print(t) if t == "words"));
}

#[test]
fn pictures_and_plain_content_are_copied_as_they_are() {
    assert_eq!(
        offered(run_copy("7", &PNG, "image/png")),
        (PNG.to_vec(), None, Some(("Copied Image".to_string(), "7".to_string())))
    );
    assert_eq!(offered(run_copy("7", b"a \xff\n", "")), (b"a \xff\n".to_vec(), None, None));
}

#[test]
fn links_are_copied_as_uri_lists() {
    assert_eq!(
        offered(run_copy("7", HTML.as_bytes(), "text/html")),
        link("file:///a/b%20c.png", "Copied QQ Link", "/a/b c.png")
    );
    assert_eq!(
        offered(run_copy("7", NOTE.as_bytes(), "text/html")),
        link("file:///v/a%20b.mp4", "Copied QQ Video", "/v/a b.mp4")
    );
    assert_eq!(
        offered(run_copy("7", b"file:///a%20\n", "")),
        link("file:///a%20", "Copied File Link", "file:///a%20")
    );
}

#[test]
fn a_path_is_copied_as_a_link_if_there_is_a_file() {
    assert!(matches!(run_copy("7", b"/a b\n", ""), CopyStep::AskExists(p) if p == "/a b"));
    assert_eq!(offered(copy_found(b"/a b\n", "/a b", true)), link("file:///a%20b", "Copied File Path", "/a b"));
    assert_eq!(offered(copy_found(b"/a b\n", "/a b", false)), (b"/a b\n".to_vec(), None, None));
}

#[test]
fn nothing_is_copied_where_no_path_is_found() {
    assert!(matches!(copy_step("7", b"", "text/html", "<img src=\"file://"), CopyStep::Nothing));
    let note = "QQRichEditFormat EditElement type=\"7\"";
    assert!(matches!(copy_step("7", b"", "", note), CopyStep::Nothing));
}

#[test]
fn a_copied_path_can_be_opened_previewed_and_copied_again() {
    for path in ["/a b", "/QQRichEditFormat EditElement type=\"7\"", "/<img src=\"file://x\"", "/é\n"] {
        let (payload, _, _) = offered(copy_found(b"", path, true));
        assert_eq!(payload, file_url(path).into_bytes());
        assert!(matches!(
            run_open(&payload, "text/html"),
            Some(OpenStep::AskExists { path: p, from_url: true }) if p == path
        ));
        assert!(matches!(
            run_preview(&payload, "text/plain"),
            Some(PreviewStep::AskMime { path: p }) if p == path
        ));
        assert_eq!(offered(run_copy("7", &payload, "text/html")).0, payload);
    }
}

#[test]
fn the_type_of_an_offer_is_handed_on() {
    assert_eq!(wl_copy(Some("text/uri-list")), vec!["--type", "text/uri-list"]);
    assert!(wl_copy(None).is_empty());
}

#[test]
fn entries_are_opened_by_kind() {
    assert!(matches!(run_open(HTML.as_bytes(), "text/html"), Some(OpenStep::OpenDefault(p)) if p == "/a/b c.png"));
    assert!(matches!(run_open(NOTE.as_bytes(), ""), Some(OpenStep::OpenSmart(p)) if p == "/v/a b.mp4"));
    assert!(matches!(
        run_open(b"/a\n", ""),
        Some(OpenStep::AskExists { path, from_url: false }) if path == "/a"
    ));
    assert!(matches!(run_open(b"words", ""), Some(OpenStep::Nothing)));
    assert!(matches!(open_step(b"", "text/html", "<img src=\"file://"), OpenStep::Nothing));
    assert!(run_open(b"file:///%FF", "").is_none());
}

#[test]
fn a_missing_file_is_told_for_urls_alone() {
    assert!(matches!(open_found("/a", true, true), OpenStep::OpenSmart(p) if p == "/a"));
    assert!(matches!(open_found("/a", false, true), OpenStep::OpenSmart(p) if p == "/a"));
    assert!(matches!(open_found("/a", false, false), OpenStep::Nothing));
    match open_found("/a", true, false) {
        OpenStep::Tell(n) => {
            assert_eq!(n.title, "Open Error");
            assert_eq!(n.body, "File missing: /a");
        }
        other => panic!("{:?}", other),
    }
}

#[test]
fn videos_are_opened_with_mpv() {
    let call = smart_open("/a.MKV", true);
    assert_eq!(call.program, "mpv");
    assert_eq!(call.args, vec!["--wayland-app-id=floating-mpv", "/a.MKV"]);
    for call in [smart_open("/a.mkv", false), opener("/a.mkv", false, true)] {
        assert_eq!(call.program, "xdg-open");
        assert_eq!(call.args, vec!["/a.mkv"]);
    }
}

/// `n` skippable frames, each of them empty, before the magic number of Zstandard.
fn framed(n: usize) -> Vec<u8> {
    let mut bytes = [0x50, 0x2A, 0x4D, 0x18, 0, 0, 0, 0].repeat(n);
    bytes.extend_from_slice(&[0x28, 0xB5, 0x2F, 0xFD]);
    bytes
}

#[test]
fn skippable_frames_are_passed_over() {
    for n in [0, 1, 63, 64, 65, 256, 257, 131072] {
        assert!(is_inferable(&framed(n)));
        assert_eq!(get_mime(&framed(n)).unwrap(), "application/zstd");
    }
}

/// One skippable frame that holds `data`.
fn frame(first: u8, data: &[u8]) -> Vec<u8> {
    let mut bytes = vec![first, 0x2A, 0x4D, 0x18];
    bytes.extend_from_slice(&(data.len() as u32).to_le_bytes());
    bytes.extend_from_slice(data);
    bytes
}

#[test]
fn surplus_frames_make_no_difference() {
    let mut tar = vec![0; 249];
    tar.extend_from_slice(b"ustar");
    let mut dicom = vec![0; 120];
    dicom.extend_from_slice(b"DICM");
    let mut mobi = vec![0; 52];
    mobi.extend_from_slice(b"BOOKMOBI");
    let fronts = [
        frame(0x50, b""), frame(0x5F, b"WEBP"), frame(0x51, b"words"), frame(0x52, &tar),
        frame(0x53, &dicom), frame(0x54, &mobi),
    ];
    let tails: [&[u8]; 7] = [
        b"", b"\x28\xB5\x2F\xFD", b"\x04\x22\x4D\x18", b"GIF89a", b"\x50\x2A\x4D\x18",
        b"\x50\x2A\x4D\x18\x01\x00\x00\x00", b"\x5F\x2A\x4D\x18\xFF\xFF\xFF\xFF\x00",
    ];
    for front in &fronts {
        for tail in tails {
            for n in [1, 63, 64, 65, 200] {
                let mut bytes = front.clone();
                for k in 1..n {
                    bytes.extend(frame(0x50 + k as u8 % 16, &vec![k as u8; k % 5]));
                }
                bytes.extend_from_slice(tail);
                let told = infer::get(&bytes).map(|kind| kind.mime_type().to_string());
                assert_eq!(get_mime(&bytes), told);
            }
        }
    }
}

#[test]
fn archives_can_be_looked_up() {
    let mut bytes = vec![0x50, 0x4B, 0x03, 0x04];
    bytes.resize(64, 0);
    assert!(is_inferable(&bytes));
    assert_eq!(get_mime(&bytes).unwrap(), "application/zip");
    assert!(is_inferable(b""));
}

#[test]
fn the_magic_number_is_asked_before_the_file_program() {
    let magic = Some("image/png".to_string());
    assert_eq!(chosen_mime(magic, Some(b"text/plain\n".as_slice())), "image/png");
    assert_eq!(chosen_mime(None, Some(b"text/plain\n".as_slice())), "text/plain");
    assert_eq!(chosen_mime(None, None), "");
}

#[test]
fn a_picture_is_stored_once() {
    assert_eq!(picture_to_store(&PNG, false).unwrap(), PNG);
    assert!(picture_to_store(&PNG, true).is_none());
}

#[test]
fn a_copy_ends_in_the_deletion() {
    let actions = copy_actions("7", run_copy("7", &PNG, "image/png"));
    assert_eq!(actions.len(), 3);
    assert!(matches!(&actions[0], CopyAction::Offer { payload, mime: None } if *payload == PNG));
    assert!(matches!(&actions[1], CopyAction::Tell(n) if n.title == "Copied Image" && n.body == "7"));
    assert!(matches!(&actions[2], CopyAction::Delete(id) if id == "7"));

    let actions = copy_actions(" 8 ", run_copy(" 8 ", b"words", ""));
    assert_eq!(actions.len(), 2);
    assert!(matches!(&actions[0], CopyAction::Offer { payload, mime: None } if payload == b"words"));
    assert!(matches!(&actions[1], CopyAction::Delete(id) if id == " 8 "));

    let actions = copy_actions("9", copy_found(b"/a", "/a", true));
    assert!(matches!(
        &actions[0],
        CopyAction::Offer { payload, mime: Some(m) } if payload == b"file:///a" && m == "text/uri-list"
    ));

    let actions = copy_actions("9", CopyStep::Nothing);
    assert_eq!(actions.len(), 1);
    assert!(matches!(&actions[0], CopyAction::Delete(id) if id == "9"));
}

#[test]
fn a_preview_deletes_pictures_before_it_reads_the_entry() {
    let opening = preview_opening(Graphics { icat: true, native: false }, " 7 ");
    assert_eq!(opening.len(), 2);
    assert!(matches!(&opening[0], Opening::Terminal(bytes) if bytes == b"\x1B_Ga=d,d=A\x1B\\"));
    assert!(matches!(&opening[1], Opening::Decode(request) if request == "7\t\n"));
    let opening = preview_opening(Graphics { icat: false, native: true }, "7");
    assert_eq!(opening.len(), 1);
    assert!(matches!(&opening[0], Opening::Decode(request) if request == "7\t\n"));
}

#[test]
fn line_ends_change_nothing_that_is_shown_or_opened() {
    for (raw, mime) in [(HTML, "text/html"), (NOTE, ""), ("/a", ""), ("file:///a", ""), ("é", "")] {
        let plain = format!("{:?}", previewed(raw, mime));
        for ends in ["\n", "\r\n", "\r\r\n\n"] {
            assert_eq!(clip_text(format!("{}{}", raw, ends).as_bytes()), raw);
            assert_eq!(format!("{:?}", previewed(&format!("{}{}", raw, ends), mime)), plain);
            let opened = |raw: &str| format!("{:?}", run_open(raw.as_bytes(), mime));
            assert_eq!(opened(&format!("{}{}", raw, ends)), opened(raw));
        }
    }
}

#[test]
fn files_are_opened_by_the_desktop() {
    let call = default_opener();
    assert_eq!(call.program, "xdg-open");
    assert!(call.args.is_empty());
}

#[test]
fn line_ends_are_dropped_behind_any_bytes() {
    for raw in [b"a\xFF".as_slice(), b"\xE2\x82", b"\xF0\x9F\x98", b"\xC3", b"\x80\x80", b"\xED\xA0\x80"] {
        let mut longer = raw.to_vec();
        for end in [b'\n', b'\r', b'\n'] {
            longer.push(end);
            assert_eq!(clip_text(&longer), clip_text(raw));
            let (one, two) = (run_preview(raw, ""), run_preview(&longer, ""));
            assert_eq!(format!("{:?}", one), format!("{:?}", two));
            assert_eq!(format!("{:?}", run_open(raw, "")), format!("{:?}", run_open(&longer, "")));
        }
    }
}
