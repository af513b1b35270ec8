//! What is shown for a selected entry.
//!
//! The preview is decided in steps: a step either says what to show, or asks something of the
//! file system, and the answer leads to the next step.
use crate::content;
use crate::copy;
use crate::display;
use crate::list;
use crate::media;
use crate::outside;
use crate::text;
use crate::url;
use vstd::prelude::*;
use vstd::string::*;
use vstd::utf8::*;

verus! {

/// What is done before it is known what an entry holds.
#[derive(Debug)]
pub enum Opening<B, T> {
    /// Write these bytes to the terminal, if it can be written to.
    Terminal(B),
    /// Send this request to `cliphist decode`, and take what comes back for the entry.
    Decode(T),
}

impl View for Opening<Vec<u8>, String> {
    type V = Opening<Seq<u8>, Seq<char>>;

    open spec fn view(&self) -> Opening<Seq<u8>, Seq<char>> {
        match *self {
            Opening::Terminal(bytes) => Opening::Terminal(bytes@),
            Opening::Decode(request) => Opening::Decode(request@),
        }
    }
}

/// How the preview of the entry `id` begins: the pictures are deleted from a terminal that takes
/// pictures, then the entry is read.
pub open spec fn opening_of(g: display::Graphics, id: Seq<char>) -> Seq<
    Opening<Seq<u8>, Seq<char>>,
> {
    let read = Opening::Decode(text::trimmed(id) + "\t\n"@);
    match display::clear_of(g) {
        Some(bytes) => seq![Opening::Terminal(bytes), read],
        None => seq![read],
    }
}

/// How the preview of the entry `id` begins.
pub fn preview_opening(g: display::Graphics, id: &str) -> (res: Vec<Opening<Vec<u8>, String>>)
    ensures
        res@.map_values(|o: Opening<Vec<u8>, String>| o@) == opening_of(g, id@),
{
    let mut res: Vec<Opening<Vec<u8>, String>> = Vec::new();
    if let Some(bytes) = display::clear_sequence(g) {
        res.push(Opening::Terminal(bytes));
    }
    res.push(Opening::Decode(list::decode_request(id)));
    assert(res@.map_values(|o: Opening<Vec<u8>, String>| o@) =~= opening_of(g, id@));
    res
}

/// A preview writes to the terminal before anything else, exactly where the terminal takes
/// pictures, and whatever the entry holds; then it reads the entry once.
pub proof fn preview_clears_first(g: display::Graphics, id: Seq<char>)
    ensures
        g.icat <==> opening_of(g, id)[0] == Opening::<Seq<u8>, Seq<char>>::Terminal(
            display::delete_images(),
        ),
        forall|i: int|
            0 < i < opening_of(g, id).len() ==> !((#[trigger] opening_of(g, id)[i]) is Terminal),
        forall|i: int|
            0 <= i < opening_of(g, id).len() ==> ((#[trigger] opening_of(g, id)[i]) is Decode <==> i
                == opening_of(g, id).len() - 1),
{
}

/// What an existing file is to be shown as.
#[derive(Clone, Copy, Debug, PartialEq, Eq, Structural)]
pub enum ShowAs {
    /// A picture.
    Image,
    /// A video, by a thumbnail.
    Video,
    /// Whatever its name and its MIME type tell.
    Inspect,
}

/// One step of a preview.
#[derive(Debug)]
pub enum PreviewStep<T> {
    /// Show nothing.
    Nothing,
    /// Store the bytes of the entry in the cache under this name, unless there is such a
    /// file, and show that file.
    CachedImage(T),
    /// Show the picture at this path.
    Image(T),
    /// Show a thumbnail of the video at this path.
    Video(T),
    /// Print this text.
    Print(T),
    /// Ask whether there is a file at this path, and go on with `preview_found`.
    AskExists { path: T, show: ShowAs },
    /// Ask for the MIME type of the file at this path, and go on with `preview_typed`.
    AskMime { path: T },
}

impl View for PreviewStep<String> {
    type V = PreviewStep<Seq<char>>;

    open spec fn view(&self) -> PreviewStep<Seq<char>> {
        match *self {
            PreviewStep::Nothing => PreviewStep::Nothing,
            PreviewStep::CachedImage(name) => PreviewStep::CachedImage(name@),
            PreviewStep::Image(path) => PreviewStep::Image(path@),
            PreviewStep::Video(path) => PreviewStep::Video(path@),
            PreviewStep::Print(text) => PreviewStep::Print(text@),
            PreviewStep::AskExists { path, show } => PreviewStep::AskExists { path: path@, show },
            PreviewStep::AskMime { path } => PreviewStep::AskMime { path: path@ },
        }
    }
}

/// The step for a file that is to be inspected.
pub open spec fn inspect_of(path: Seq<char>, video: bool) -> PreviewStep<Seq<char>> {
    if video {
        PreviewStep::Video(path)
    } else {
        PreviewStep::AskMime { path }
    }
}

/// The step for a path that was found in the text of an entry, if one was.
pub open spec fn found_of(
    path: Option<Seq<char>>,
    show: ShowAs,
    text: Seq<char>,
) -> PreviewStep<Seq<char>> {
    match path {
        Some(path) => PreviewStep::AskExists { path, show },
        None => PreviewStep::Print(text),
    }
}

/// What an entry holds, as far as its preview goes.
pub open spec fn preview_kind(mime: Seq<char>, text: Seq<char>) -> content::Kind {
    content::kind_of(mime, text, "QQ"@)
}

/// An entry of which the preview can be told: if it is taken as a URL, that can be decoded.
pub open spec fn previewable(raw: Seq<u8>, mime: Seq<char>, text: Seq<char>) -> bool {
    raw.len() > 0 && preview_kind(mime, text) == content::Kind::Url ==> url::path_of(text) is Some
}

/// The first step of the preview of an entry with the bytes `raw`, the type `mime` and the text
/// `text`.
pub open spec fn preview_of(
    raw: Seq<u8>,
    mime: Seq<char>,
    text: Seq<char>,
) -> PreviewStep<Seq<char>> {
    if raw.len() == 0 {
        PreviewStep::Nothing
    } else {
        match preview_kind(mime, text) {
            content::Kind::Picture => PreviewStep::CachedImage(media::image_name_of(raw, mime)),
            content::Kind::Html => found_of(content::html_image(text), ShowAs::Image, text),
            content::Kind::Note => found_of(content::qq_video_file(text), ShowAs::Video, text),
            content::Kind::Url => inspect_of(
                url::path_of(text)->0,
                media::video_name(outside::lowercase(url::path_of(text)->0)),
            ),
            content::Kind::Path => PreviewStep::AskExists { path: text, show: ShowAs::Inspect },
            content::Kind::Plain => PreviewStep::Print(text),
        }
    }
}

/// The step once it is known whether there is a file at `path`.
pub open spec fn found_step(
    text: Seq<char>,
    path: Seq<char>,
    show: ShowAs,
    exists: bool,
    video: bool,
) -> PreviewStep<Seq<char>> {
    if !exists {
        PreviewStep::Print(text)
    } else {
        match show {
            ShowAs::Image => PreviewStep::Image(path),
            ShowAs::Video => PreviewStep::Video(path),
            ShowAs::Inspect => inspect_of(path, video),
        }
    }
}

/// The step once the MIME type of the file at `path` is known.
pub open spec fn typed_step(
    text: Seq<char>,
    path: Seq<char>,
    mime: Seq<char>,
) -> PreviewStep<Seq<char>> {
    if media::is_image(mime) {
        PreviewStep::Image(path)
    } else {
        PreviewStep::Print(text)
    }
}

/// The step for a file that is to be inspected, given whether its name is that of a video.
pub fn inspect(path: &str, video: bool) -> (res: PreviewStep<String>)
    ensures
        res@ == inspect_of(path@, video),
{
    if video {
        PreviewStep::Video(path.to_owned())
    } else {
        PreviewStep::AskMime { path: path.to_owned() }
    }
}

/// The step for a path that was found in the text of an entry, if one was.
fn found(path: Option<String>, show: ShowAs, text: &str) -> (res: PreviewStep<String>)
    ensures
        res@ == found_of(text::text_in(path), show, text@),
{
    match path {
        Some(path) => PreviewStep::AskExists { path, show },
        None => PreviewStep::Print(text.to_owned()),
    }
}

/// The first step of the preview of an entry with the bytes `raw`, the type `mime` and the text
/// `text`.
pub fn preview_step(raw: &[u8], mime: &str, text: &str) -> (res: PreviewStep<String>)
    requires
        previewable(raw@, mime@, text@),
    ensures
        res@ == preview_of(raw@, mime@, text@),
        ({
            let path = url::path_of(text@)->0;
            raw@.len() > 0 && preview_kind(mime@, text@) == content::Kind::Url && media::ascii_named(
                path,
            ) ==> res@ == inspect_of(path, media::video_name(outside::ascii_lowercase(path)))
        }),
{
    if raw.len() == 0 {
        return PreviewStep::Nothing;
    }
    match content::kind(mime, text, "QQ") {
        content::Kind::Picture => PreviewStep::CachedImage(media::image_name(raw, mime)),
        content::Kind::Html => found(content::html_image_path(text), ShowAs::Image, text),
        content::Kind::Note => found(content::qq_video_path(text), ShowAs::Video, text),
        content::Kind::Url => {
            let path = url::file_url_path(text).unwrap();
            inspect(path.as_str(), media::is_video_ext(path.as_str()))
        },
        content::Kind::Path => PreviewStep::AskExists {
            path: text.to_owned(),
            show: ShowAs::Inspect,
        },
        content::Kind::Plain => PreviewStep::Print(text.to_owned()),
    }
}

/// The first step of the preview of an entry with the bytes `raw` and the type `mime`; none
/// where it is a URL that does not decode to UTF-8. Line ends behind an entry, if it is neither
/// empty without them nor a picture, do not change it.
pub fn run_preview(raw: &[u8], mime: &str) -> (res: Option<PreviewStep<String>>)
    ensures
        res is Some <==> previewable(raw@, mime@, media::clip_text_of(raw@)),
        res matches Some(step) ==> step@ == preview_of(raw@, mime@, media::clip_text_of(raw@)),
        valid_utf8(raw@) ==> media::clip_text_of(raw@) == text::without_line_ends(
            decode_utf8(raw@),
        ),
        res matches Some(step) ==> ({
            let text = media::clip_text_of(raw@);
            let path = url::path_of(text)->0;
            raw@.len() > 0 && preview_kind(mime@, text) == content::Kind::Url && media::ascii_named(
                path,
            ) ==> step@ == inspect_of(path, media::video_name(outside::ascii_lowercase(path)))
        }),
        forall|k: int| #[trigger]
            outside::line_ends_from(raw@, k) && k > 0 && !media::is_image(mime@) ==> {
                let (one, text) = (raw@.take(k), media::clip_text_of(raw@.take(k)));
                &&& res is Some <==> previewable(one, mime@, text)
                &&& res matches Some(step) ==> step@ == preview_of(one, mime@, text)
            },
{
    let clip = media::clip_text(raw);
    let text = clip.as_str();
    let is_url = match content::kind(mime, text, "QQ") {
        content::Kind::Url => true,
        _ => false,
    };
    if raw.len() > 0 && is_url {
        if url::file_url_path(text).is_none() {
            return None;
        }
    }
    Some(preview_step(raw, mime, text))
}

/// The step once it is known whether there is a file at `path`.
pub fn preview_found(text: &str, path: &str, show: ShowAs, exists: bool) -> (res: PreviewStep<
    String,
>)
    ensures
        res@ == found_step(
            text@,
            path@,
            show,
            exists,
            media::video_name(outside::lowercase(path@)),
        ),
        media::ascii_named(path@) ==> res@ == found_step(
            text@,
            path@,
            show,
            exists,
            media::video_name(outside::ascii_lowercase(path@)),
        ),
{
    if !exists {
        return PreviewStep::Print(text.to_owned());
    }
    match show {
        ShowAs::Image => PreviewStep::Image(path.to_owned()),
        ShowAs::Video => PreviewStep::Video(path.to_owned()),
        ShowAs::Inspect => inspect(path, media::is_video_ext(path)),
    }
}

/// The step once the MIME type of the file at `path` is known.
pub fn preview_typed(text: &str, path: &str, mime: &str) -> (res: PreviewStep<String>)
    ensures
        res@ == typed_step(text@, path@, mime@),
{
    if media::is_image_mime(mime) {
        PreviewStep::Image(path.to_owned())
    } else {
        PreviewStep::Print(text.to_owned())
    }
}

/// The step asks something.
pub open spec fn asks(step: PreviewStep<Seq<char>>) -> bool {
    step is AskExists || step is AskMime
}

/// A preview asks at most twice: whether a file is there, then what type it has.
pub proof fn preview_ends(
    text: Seq<char>,
    path: Seq<char>,
    show: ShowAs,
    exists: bool,
    video: bool,
    mime: Seq<char>,
)
    ensures
        !(found_step(text, path, show, exists, video) is AskExists),
        !asks(typed_step(text, path, mime)),
{
}

/// The URL of a path, as it is copied, is previewed by that path: as a video or by its MIME
/// type. HTML and pictures are previewed in their own way.
pub proof fn copied_url_previews_path(raw: Seq<u8>, mime: Seq<char>, path: Seq<char>)
    requires
        raw.len() > 0,
        !media::is_image(mime),
        mime != "text/html"@,
    ensures
        previewable(raw, mime, url::url_of(path)),
        preview_of(raw, mime, url::url_of(path)) == inspect_of(
            path,
            media::video_name(outside::lowercase(path)),
        ),
{
    content::url_of_path_is_url(path, mime);
    url::url_names_its_path(path);
}

/// Line ends behind the text of an entry never change its preview, if it is neither empty nor a
/// picture.
pub proof fn line_ends_change_no_preview(
    raw: Seq<u8>,
    longer: Seq<u8>,
    mime: Seq<char>,
    text: Seq<char>,
    ends: Seq<char>,
)
    requires
        raw.len() > 0,
        longer.len() > 0,
        !media::is_image(mime),
        forall|i: int| 0 <= i < ends.len() ==> text::line_end(#[trigger] ends[i]),
    ensures
        ({
            let one = text::without_line_ends(text);
            let two = text::without_line_ends(text + ends);
            &&& previewable(raw, mime, one) == previewable(longer, mime, two)
            &&& preview_of(raw, mime, one) == preview_of(longer, mime, two)
        }),
{
    text::line_ends_are_dropped(text, ends);
}

/// An entry without bytes has no preview.
pub proof fn empty_entries_show_nothing(mime: Seq<char>, text: Seq<char>)
    ensures
        previewable(Seq::empty(), mime, text),
        preview_of(Seq::empty(), mime, text) is Nothing,
{
}

/// A picture of whatever type is shown from the cache, by the hash of its bytes and what stands
/// behind the last slash of its type.
pub proof fn pictures_are_shown(
    raw: Seq<u8>,
    mime: Seq<char>,
    s: Seq<char>,
    p: Seq<char>,
    e: Seq<char>,
    text: Seq<char>,
)
    requires
        raw.len() > 0,
        mime == "image/"@ + s,
        mime == p + "/"@ + e,
        !e.contains('/'),
    ensures
        previewable(raw, mime, text),
        preview_of(raw, mime, text) == PreviewStep::CachedImage(
            text::numeral(outside::xxh3(raw) as nat, 16) + "."@ + e,
        ),
{
    media::pictures_by_type(s, s);
    media::pictures_are_named(raw, p, e);
}

/// So it is of every type that begins with `image/`.
pub proof fn every_picture_is_shown(raw: Seq<u8>, s: Seq<char>, text: Seq<char>)
    requires
        raw.len() > 0,
    ensures
        preview_of(raw, "image/"@ + s, text) == PreviewStep::CachedImage(
            text::numeral(outside::xxh3(raw) as nat, 16) + "."@ + text::after_last(
                "image/"@ + s,
                '/',
            ),
        ),
{
    media::pictures_by_type(s, s);
}

/// HTML of QQ is shown by the picture file in it, if there is such a file, and as its text
/// otherwise.
pub proof fn html_of_qq_is_shown(raw: Seq<u8>, text: Seq<char>, path: Seq<char>, video: bool)
    requires
        raw.len() > 0,
        text::has_text(text, "QQ"@),
    ensures
        previewable(raw, "text/html"@, text),
        content::html_image(text) == Some(path) ==> preview_of(raw, "text/html"@, text) == (
        PreviewStep::AskExists { path, show: ShowAs::Image }),
        content::html_image(text) is None ==> preview_of(raw, "text/html"@, text)
            == PreviewStep::Print(text),
        found_step(text, path, ShowAs::Image, true, video) == PreviewStep::Image(path),
        found_step(text, path, ShowAs::Image, false, video) == PreviewStep::Print(text),
{
    copy::lemma_html_is_no_image();
}

/// The note of QQ for a video is shown by that video, if there is such a file, and as its text
/// otherwise.
pub proof fn notes_are_shown(
    raw: Seq<u8>,
    mime: Seq<char>,
    text: Seq<char>,
    path: Seq<char>,
    video: bool,
)
    requires
        raw.len() > 0,
        !text::begins_with(mime, "image/"@),
        !(mime == "text/html"@ && text::has_text(text, "QQ"@)),
        text::has_text(text, "QQRichEditFormat"@),
        text::has_text(text, "EditElement type=\"7\""@),
    ensures
        previewable(raw, mime, text),
        content::qq_video_file(text) == Some(path) ==> preview_of(raw, mime, text) == (
        PreviewStep::AskExists { path, show: ShowAs::Video }),
        content::qq_video_file(text) is None ==> preview_of(raw, mime, text) == PreviewStep::Print(
            text,
        ),
        found_step(text, path, ShowAs::Video, true, video) == PreviewStep::Video(path),
        found_step(text, path, ShowAs::Video, false, video) == PreviewStep::Print(text),
{
}

/// A `file://` URL is shown by the path that it names: as a video, by its name, or else as its
/// MIME type tells, a picture or the text of the entry. It is only where it names no path that
/// nothing can be said.
pub proof fn urls_are_shown(
    raw: Seq<u8>,
    mime: Seq<char>,
    t: Seq<char>,
    text: Seq<char>,
    path: Seq<char>,
)
    requires
        raw.len() > 0,
        text == "file://"@ + t,
        !text::begins_with(mime, "image/"@),
        !(mime == "text/html"@ && text::has_text(text, "QQ"@)),
        !(text::has_text(text, "QQRichEditFormat"@) && text::has_text(
            text,
            "EditElement type=\"7\""@,
        )),
    ensures
        previewable(raw, mime, text) <==> url::path_of(text) is Some,
        url::path_of(text) == Some(path) ==> {
            &&& media::video_name(outside::lowercase(path)) ==> preview_of(raw, mime, text)
                == PreviewStep::Video(path)
            &&& !media::video_name(outside::lowercase(path)) ==> preview_of(raw, mime, text) == (
            PreviewStep::AskMime { path })
        },
{
    url::urls_name_paths(t);
}

/// An absolute path is shown by its file, if there is one: as a video, by its name, or else as
/// its MIME type tells. Without a file it is shown as its text.
pub proof fn paths_are_shown(
    raw: Seq<u8>,
    mime: Seq<char>,
    t: Seq<char>,
    text: Seq<char>,
    video: bool,
)
    requires
        raw.len() > 0,
        text == seq!['/'] + t,
        !text::begins_with(mime, "image/"@),
        !(mime == "text/html"@ && text::has_text(text, "QQ"@)),
        !(text::has_text(text, "QQRichEditFormat"@) && text::has_text(
            text,
            "EditElement type=\"7\""@,
        )),
    ensures
        previewable(raw, mime, text),
        preview_of(raw, mime, text) == (PreviewStep::AskExists {
            path: text,
            show: ShowAs::Inspect,
        }),
        found_step(text, text, ShowAs::Inspect, true, true) == PreviewStep::Video(text),
        found_step(text, text, ShowAs::Inspect, true, false) == (PreviewStep::AskMime {
            path: text,
        }),
        found_step(text, text, ShowAs::Inspect, false, video) == PreviewStep::Print(text),
{
    content::paths_begin_with_slash(text);
    content::url_is_no_path(text);
}

/// Any other content is shown as its text.
pub proof fn other_content_is_printed(raw: Seq<u8>, mime: Seq<char>, text: Seq<char>)
    requires
        raw.len() > 0,
        !(exists|t: Seq<char>| text == #[trigger] ("file://"@ + t)),
        text.len() == 0 || text[0] != '/',
        !text::begins_with(mime, "image/"@),
        !(mime == "text/html"@ && text::has_text(text, "QQ"@)),
        !(text::has_text(text, "QQRichEditFormat"@) && text::has_text(
            text,
            "EditElement type=\"7\""@,
        )),
    ensures
        previewable(raw, mime, text),
        preview_of(raw, mime, text) == PreviewStep::Print(text),
{
    url::urls_name_paths(text);
    content::paths_begin_with_slash(text);
}

/// Whatever is asked, a file is shown by its own path, or the text of the entry is printed: a
/// video by its name, a picture by its type.
pub proof fn files_are_shown(
    text: Seq<char>,
    path: Seq<char>,
    show: ShowAs,
    video: bool,
    s: Seq<char>,
    mime: Seq<char>,
)
    ensures
        found_step(text, path, show, false, video) == PreviewStep::Print(text),
        found_step(text, path, ShowAs::Image, true, video) == PreviewStep::Image(path),
        found_step(text, path, ShowAs::Video, true, video) == PreviewStep::Video(path),
        found_step(text, path, ShowAs::Inspect, true, true) == PreviewStep::Video(path),
        found_step(text, path, ShowAs::Inspect, true, false) == (PreviewStep::AskMime { path }),
        inspect_of(path, true) == PreviewStep::Video(path),
        inspect_of(path, false) == (PreviewStep::AskMime { path }),
        typed_step(text, path, "image/"@ + s) == PreviewStep::Image(path),
        !(exists|rest: Seq<char>| mime == #[trigger] ("image/"@ + rest)) ==> typed_step(
            text,
            path,
            mime,
        ) == PreviewStep::Print(text),
{
    media::pictures_by_type(s, mime);
}

/// A preview begins with the request for the entry, by its id without white space around it, and
/// before that, where the terminal takes pictures, with their deletion.
pub proof fn preview_asks_for_its_entry(native: bool, id: Seq<char>)
    ensures
        opening_of(display::Graphics { icat: false, native }, id) == seq![
            Opening::<Seq<u8>, Seq<char>>::Decode(text::trimmed(id) + "\t\n"@),
        ],
        opening_of(display::Graphics { icat: true, native }, id) == seq![
            Opening::Terminal(encode_utf8("\x1b_Ga=d,d=A\x1b\\"@)),
            Opening::Decode(text::trimmed(id) + "\t\n"@),
        ],
{
    display::images_are_deleted();
}

/// A step is seen as what it holds.
pub proof fn preview_is_seen(step: PreviewStep<String>, opening: Opening<Vec<u8>, String>)
    ensures
        step is Nothing <==> step@ is Nothing,
        step matches PreviewStep::CachedImage(name) ==> step@ == PreviewStep::CachedImage(name@),
        step matches PreviewStep::Image(path) ==> step@ == PreviewStep::Image(path@),
        step matches PreviewStep::Video(path) ==> step@ == PreviewStep::Video(path@),
        step matches PreviewStep::Print(text) ==> step@ == PreviewStep::Print(text@),
        step matches PreviewStep::AskExists { path, show } ==> step@ == (PreviewStep::AskExists {
            path: path@,
            show,
        }),
        step matches PreviewStep::AskMime { path } ==> step@ == (PreviewStep::AskMime {
            path: path@,
        }),
        opening matches Opening::Terminal(bytes) ==> opening@ == Opening::<
            Seq<u8>,
            Seq<char>,
        >::Terminal(bytes@),
        opening matches Opening::Decode(request) ==> opening@ == Opening::<
            Seq<u8>,
            Seq<char>,
        >::Decode(request@),
{
}

} // verus!
