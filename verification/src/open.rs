//! What is opened for a selected entry, and with which program.
use crate::content;
use crate::copy;
use crate::media;
use crate::outside;
use crate::preview;
use crate::program::Call;
use crate::program::Invocation;
use crate::text;
use crate::url;
use vstd::prelude::*;
use vstd::string::*;
use vstd::utf8::*;

verus! {

/// One step of opening an entry.
#[derive(Debug)]
pub enum OpenStep<T> {
    /// Open nothing.
    Nothing,
    /// Store the bytes of the entry in the cache under this name, unless there is such a
    /// file, and open that file with the program of the desktop.
    OpenCached(T),
    /// Open this path with the program of the desktop.
    OpenDefault(T),
    /// Open this path with the program for its kind: see `smart_open`.
    OpenSmart(T),
    /// Tell that nothing could be opened.
    Tell(content::Notice<T>),
    /// Ask whether there is a file at this path, which came from a URL or not, and go on with
    /// `open_found`.
    AskExists { path: T, from_url: bool },
}

impl View for OpenStep<String> {
    type V = OpenStep<Seq<char>>;

    open spec fn view(&self) -> OpenStep<Seq<char>> {
        match *self {
            OpenStep::Nothing => OpenStep::Nothing,
            OpenStep::OpenCached(name) => OpenStep::OpenCached(name@),
            OpenStep::OpenDefault(path) => OpenStep::OpenDefault(path@),
            OpenStep::OpenSmart(path) => OpenStep::OpenSmart(path@),
            OpenStep::Tell(notice) => OpenStep::Tell(notice@),
            OpenStep::AskExists { path, from_url } => OpenStep::AskExists { path: path@, from_url },
        }
    }
}

/// An entry of which it can be told what to open: if it is taken as a URL, that can be decoded.
pub open spec fn openable(mime: Seq<char>, text: Seq<char>) -> bool {
    copy::copy_kind(mime, text) == content::Kind::Url ==> url::path_of(text) is Some
}

/// The first step of opening an entry with the bytes `raw`, the type `mime` and the text `text`.
pub open spec fn open_of(raw: Seq<u8>, mime: Seq<char>, text: Seq<char>) -> OpenStep<Seq<char>> {
    match copy::copy_kind(mime, text) {
        content::Kind::Picture => OpenStep::OpenCached(media::image_name_of(raw, mime)),
        content::Kind::Html => match content::html_image(text) {
            Some(path) => OpenStep::OpenDefault(path),
            None => OpenStep::Nothing,
        },
        content::Kind::Note => match content::qq_video_file(text) {
            Some(path) => OpenStep::OpenSmart(path),
            None => OpenStep::Nothing,
        },
        content::Kind::Url => OpenStep::AskExists { path: url::path_of(text)->0, from_url: true },
        content::Kind::Path => OpenStep::AskExists { path: text, from_url: false },
        content::Kind::Plain => OpenStep::Nothing,
    }
}

/// The step once it is known whether there is a file at `path`.
pub open spec fn open_found_of(path: Seq<char>, from_url: bool, exists: bool) -> OpenStep<
    Seq<char>,
> {
    if exists {
        OpenStep::OpenSmart(path)
    } else if from_url {
        OpenStep::Tell(
            content::Notice { title: "Open Error"@, body: "File missing: "@ + path },
        )
    } else {
        OpenStep::Nothing
    }
}

/// The first step of opening an entry with the bytes `raw`, the type `mime` and the text `text`.
pub fn open_step(raw: &[u8], mime: &str, text: &str) -> (res: OpenStep<String>)
    requires
        openable(mime@, text@),
    ensures
        res@ == open_of(raw@, mime@, text@),
{
    match content::kind(mime, text, "<img src=\"file://") {
        content::Kind::Picture => OpenStep::OpenCached(media::image_name(raw, mime)),
        content::Kind::Html => match content::html_image_path(text) {
            Some(path) => OpenStep::OpenDefault(path),
            None => OpenStep::Nothing,
        },
        content::Kind::Note => match content::qq_video_path(text) {
            Some(path) => OpenStep::OpenSmart(path),
            None => OpenStep::Nothing,
        },
        content::Kind::Url => OpenStep::AskExists {
            path: url::file_url_path(text).unwrap(),
            from_url: true,
        },
        content::Kind::Path => OpenStep::AskExists { path: text.to_owned(), from_url: false },
        content::Kind::Plain => OpenStep::Nothing,
    }
}

/// The first step of opening an entry with the bytes `raw` and the type `mime`; none where it
/// is a URL that does not decode to UTF-8. Line ends behind an entry, if it is no picture, do
/// not change it.
pub fn run_open(raw: &[u8], mime: &str) -> (res: Option<OpenStep<String>>)
    ensures
        res is Some <==> openable(mime@, media::clip_text_of(raw@)),
        res matches Some(step) ==> step@ == open_of(raw@, mime@, media::clip_text_of(raw@)),
        valid_utf8(raw@) ==> media::clip_text_of(raw@) == text::without_line_ends(
            decode_utf8(raw@),
        ),
        forall|k: int| #[trigger]
            outside::line_ends_from(raw@, k) && !media::is_image(mime@) ==> {
                let (one, text) = (raw@.take(k), media::clip_text_of(raw@.take(k)));
                &&& res is Some <==> openable(mime@, text)
                &&& res matches Some(step) ==> step@ == open_of(one, mime@, text)
            },
{
    let clip = media::clip_text(raw);
    let text = clip.as_str();
    let is_url = match content::kind(mime, text, "<img src=\"file://") {
        content::Kind::Url => true,
        _ => false,
    };
    if is_url && url::file_url_path(text).is_none() {
        return None;
    }
    Some(open_step(raw, mime, text))
}

/// The step once it is known whether there is a file at `path`.
pub fn open_found(path: &str, from_url: bool, exists: bool) -> (res: OpenStep<String>)
    ensures
        res@ == open_found_of(path@, from_url, exists),
{
    if exists {
        OpenStep::OpenSmart(path.to_owned())
    } else if from_url {
        let mut body = String::from_str("File missing: ");
        body.append(path);
        OpenStep::Tell(content::notice("Open Error", body.as_str()))
    } else {
        OpenStep::Nothing
    }
}

/// The program that opens the file at `path`: `mpv` for a video, where there is `mpv`, else the
/// program of the desktop.
pub open spec fn opener_of(path: Seq<char>, video: bool, has_mpv: bool) -> Call {
    if video && has_mpv {
        Call { program: "mpv"@, args: seq!["--wayland-app-id=floating-mpv"@, path] }
    } else {
        Call { program: "xdg-open"@, args: seq![path] }
    }
}

/// The program of the desktop that opens files, before the path of the file.
pub fn default_opener() -> (res: Invocation)
    ensures
        res@ == (Call { program: "xdg-open"@, args: Seq::empty() }),
{
    Invocation::new("xdg-open")
}

/// The program that opens the file at `path`, given whether it is a video.
pub fn opener(path: &str, video: bool, has_mpv: bool) -> (res: Invocation)
    ensures
        res@ == opener_of(path@, video, has_mpv),
{
    let mut call;
    if video && has_mpv {
        call = Invocation::new("mpv");
        call.arg("--wayland-app-id=floating-mpv");
    } else {
        call = default_opener();
    }
    call.arg(path);
    assert(call@.args =~= opener_of(path@, video, has_mpv).args);
    call
}

/// The program that opens the file at `path`: a video is opened with `mpv`, where there is
/// `mpv`, and all else with the program of the desktop.
pub fn smart_open(path: &str, has_mpv: bool) -> (res: Invocation)
    ensures
        res@ == opener_of(path@, media::video_name(outside::lowercase(path@)), has_mpv),
        media::ascii_named(path@) ==> res@ == opener_of(
            path@,
            media::video_name(outside::ascii_lowercase(path@)),
            has_mpv,
        ),
{
    opener(path, media::is_video_ext(path), has_mpv)
}

/// The URL of a path, as it is copied, opens that path.
pub proof fn copied_url_opens_path(raw: Seq<u8>, mime: Seq<char>, path: Seq<char>)
    requires
        !media::is_image(mime),
    ensures
        openable(mime, url::url_of(path)),
        open_of(raw, mime, url::url_of(path)) == (OpenStep::AskExists { path, from_url: true }),
{
    content::url_of_path_is_url(path, mime);
    url::url_names_its_path(path);
}

/// Line ends behind the text of an entry never change what is opened for it, if it is no picture.
pub proof fn line_ends_open_the_same(
    raw: Seq<u8>,
    longer: Seq<u8>,
    mime: Seq<char>,
    text: Seq<char>,
    ends: Seq<char>,
)
    requires
        !media::is_image(mime),
        forall|i: int| 0 <= i < ends.len() ==> text::line_end(#[trigger] ends[i]),
    ensures
        ({
            let one = text::without_line_ends(text);
            let two = text::without_line_ends(text + ends);
            &&& openable(mime, one) == openable(mime, two)
            &&& open_of(raw, mime, one) == open_of(longer, mime, two)
        }),
{
    text::line_ends_are_dropped(text, ends);
}

/// A picture is opened from the same file in the cache from which it is previewed.
pub proof fn picture_is_cached_once(raw: Seq<u8>, mime: Seq<char>, text: Seq<char>)
    requires
        raw.len() > 0,
        media::is_image(mime),
    ensures
        open_of(raw, mime, text) == OpenStep::OpenCached(media::image_name_of(raw, mime)),
        preview::preview_of(raw, mime, text) == preview::PreviewStep::CachedImage(
            media::image_name_of(raw, mime),
        ),
{
}

/// A picture of whatever type is opened from the cache, by the hash of its bytes and what stands
/// behind the last slash of its type.
pub proof fn pictures_are_opened(
    raw: Seq<u8>,
    mime: Seq<char>,
    s: Seq<char>,
    p: Seq<char>,
    e: Seq<char>,
    text: Seq<char>,
)
    requires
        mime == "image/"@ + s,
        mime == p + "/"@ + e,
        !e.contains('/'),
    ensures
        openable(mime, text),
        open_of(raw, mime, text) == OpenStep::OpenCached(
            text::numeral(outside::xxh3(raw) as nat, 16) + "."@ + e,
        ),
{
    media::pictures_by_type(s, s);
    media::pictures_are_named(raw, p, e);
}

/// HTML with a picture file in it opens that file with the program of the desktop, and nothing
/// where the file has no name.
pub proof fn html_pictures_are_opened(raw: Seq<u8>, text: Seq<char>)
    requires
        text::has_text(text, "<img src=\"file://"@),
    ensures
        openable("text/html"@, text),
        content::html_image(text) matches Some(path) ==> open_of(raw, "text/html"@, text)
            == OpenStep::OpenDefault(path),
        content::html_image(text) is None ==> open_of(raw, "text/html"@, text) is Nothing,
{
    copy::lemma_html_is_no_image();
}

/// The note of QQ for a video opens that video, and nothing where it names none.
pub proof fn notes_are_opened(raw: Seq<u8>, mime: Seq<char>, text: Seq<char>)
    requires
        !text::begins_with(mime, "image/"@),
        !(mime == "text/html"@ && text::has_text(text, "<img src=\"file://"@)),
        text::has_text(text, "QQRichEditFormat"@),
        text::has_text(text, "EditElement type=\"7\""@),
    ensures
        openable(mime, text),
        content::qq_video_file(text) matches Some(path) ==> open_of(raw, mime, text)
            == OpenStep::OpenSmart(path),
        content::qq_video_file(text) is None ==> open_of(raw, mime, text) is Nothing,
{
}

/// A `file://` URL opens the path that it names, if there is a file, and tells the path if there
/// is none. It is only where it names no path that nothing can be said.
pub proof fn urls_are_opened(
    raw: Seq<u8>,
    mime: Seq<char>,
    t: Seq<char>,
    text: Seq<char>,
    path: Seq<char>,
)
    requires
        text == "file://"@ + t,
        !text::begins_with(mime, "image/"@),
        !(mime == "text/html"@ && text::has_text(text, "<img src=\"file://"@)),
        !(text::has_text(text, "QQRichEditFormat"@) && text::has_text(
            text,
            "EditElement type=\"7\""@,
        )),
    ensures
        openable(mime, text) <==> url::path_of(text) is Some,
        url::path_of(text) == Some(path) ==> open_of(raw, mime, text) == (OpenStep::AskExists {
            path,
            from_url: true,
        }),
        open_found_of(path, true, true) == OpenStep::OpenSmart(path),
        open_found_of(path, true, false) == OpenStep::Tell(
            content::Notice { title: "Open Error"@, body: "File missing: "@ + path },
        ),
{
    url::urls_name_paths(t);
}

/// An absolute path is opened if there is a file, and nothing is done if there is none.
pub proof fn paths_are_opened(raw: Seq<u8>, mime: Seq<char>, t: Seq<char>, text: Seq<char>)
    requires
        text == seq!['/'] + t,
        !text::begins_with(mime, "image/"@),
        !(mime == "text/html"@ && text::has_text(text, "<img src=\"file://"@)),
        !(text::has_text(text, "QQRichEditFormat"@) && text::has_text(
            text,
            "EditElement type=\"7\""@,
        )),
    ensures
        openable(mime, text),
        open_of(raw, mime, text) == (OpenStep::AskExists { path: text, from_url: false }),
        open_found_of(text, false, true) == OpenStep::OpenSmart(text),
        open_found_of(text, false, false) is Nothing,
{
    content::paths_begin_with_slash(text);
    content::url_is_no_path(text);
}

/// Nothing is opened for any other content.
pub proof fn other_content_is_not_opened(raw: Seq<u8>, mime: Seq<char>, text: Seq<char>)
    requires
        !(exists|t: Seq<char>| text == #[trigger] ("file://"@ + t)),
        text.len() == 0 || text[0] != '/',
        !text::begins_with(mime, "image/"@),
        !(mime == "text/html"@ && text::has_text(text, "<img src=\"file://"@)),
        !(text::has_text(text, "QQRichEditFormat"@) && text::has_text(
            text,
            "EditElement type=\"7\""@,
        )),
    ensures
        openable(mime, text),
        open_of(raw, mime, text) is Nothing,
{
    url::urls_name_paths(text);
    content::paths_begin_with_slash(text);
}

/// A file is handed to `mpv`, where there is `mpv`, exactly if its extension, in letters of
/// either case, is one of eight; every other file is handed to the program of the desktop, by
/// its path alone. `lower` is the lower-case form of the path.
pub proof fn videos_alone_go_to_mpv(p: Seq<char>, e: Seq<char>, lower: Seq<char>, has_mpv: bool)
    requires
        !e.contains('.'),
        is_ascii_chars(e),
    ensures
        ({
            let path = p + "."@ + e;
            let ext = outside::ascii_lowercase(e);
            let video = ext == "mp4"@ || ext == "mkv"@ || ext == "webm"@ || ext == "avi"@ || ext == "mov"@ || ext == "flv"@ || ext == "wmv"@ || ext == "ts"@;
            let call = opener_of(path, media::video_name(lower), has_mpv);
            outside::lower_form(path, lower) ==> {
                &&& video && has_mpv ==> call.program == "mpv"@ && call.args == seq![
                    "--wayland-app-id=floating-mpv"@,
                    path,
                ]
                &&& !(video && has_mpv) ==> call.program == "xdg-open"@ && call.args == seq![path]
            }
        }),
        outside::lower_form(e, lower) ==> ({
            let call = opener_of(e, media::video_name(lower), has_mpv);
            call.program == "xdg-open"@ && call.args == seq![e]
        }),
{
    media::video_extensions_of_either_case(p, e, lower);
}

/// The same of every path, by whether it is the name of a video.
pub proof fn openers(path: Seq<char>, video: bool, has_mpv: bool)
    ensures
        opener_of(path, true, true) == (Call {
            program: "mpv"@,
            args: seq!["--wayland-app-id=floating-mpv"@, path],
        }),
        !video || !has_mpv ==> opener_of(path, video, has_mpv) == (Call {
            program: "xdg-open"@,
            args: seq![path],
        }),
{
}

/// A step is seen as what it holds.
pub proof fn open_step_is_seen(step: OpenStep<String>)
    ensures
        step is Nothing <==> step@ is Nothing,
        step matches OpenStep::OpenCached(name) ==> step@ == OpenStep::OpenCached(name@),
        step matches OpenStep::OpenDefault(path) ==> step@ == OpenStep::OpenDefault(path@),
        step matches OpenStep::OpenSmart(path) ==> step@ == OpenStep::OpenSmart(path@),
        step matches OpenStep::Tell(notice) ==> step@ == OpenStep::Tell(notice@),
        step matches OpenStep::AskExists { path, from_url } ==> step@ == (OpenStep::AskExists {
            path: path@,
            from_url,
        }),
{
}

/// A file that is there is opened, wherever its path came from; one that is not there is told
/// where its path came from a URL, and passed over in silence otherwise.
pub proof fn missing_files_are_told(path: Seq<char>, from_url: bool)
    ensures
        open_found_of(path, from_url, true) == OpenStep::OpenSmart(path),
        open_found_of(path, true, false) == OpenStep::Tell(
            content::Notice { title: "Open Error"@, body: "File missing: "@ + path },
        ),
        open_found_of(path, false, false) is Nothing,
{
}

} // verus!
