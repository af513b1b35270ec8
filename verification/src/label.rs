//! The label under which a clipboard entry stands in the list.
use crate::content;
use crate::media;
use crate::outside;
use crate::text;
use crate::url;
use vstd::prelude::*;
use vstd::string::*;
use vstd::utf8::*;

verus! {

/// The picture formats that are told apart in the summary of binary data.
#[derive(Clone, Copy, Debug, PartialEq, Eq, Structural)]
pub enum Picture {
    Png,
    Jpg,
    Jpeg,
    Gif,
    Webp,
}

/// What an entry is labelled as.
#[derive(Clone, Copy, Debug, PartialEq, Eq, Structural)]
pub enum Label {
    /// The URL of a video.
    VideoUrl,
    /// The name of a video.
    VideoFile,
    /// A note of QQ for a video.
    VideoNote,
    /// HTML of QQ with a picture.
    ImageHtml,
    /// The URL of a temporary file of WeChat.
    ImageWeChat,
    /// The URL of a GIF.
    GifUrl,
    /// The URL of another picture.
    ImageUrl,
    /// The URL of a file of QQ.
    ImageQq,
    /// Any other `file://` URL.
    FileUrl,
    /// The path of a GIF.
    GifPath,
    /// The path of another picture.
    ImagePath,
    /// Binary data that is a picture.
    ImageData(Picture),
    /// Other binary data.
    Binary,
    /// Anything else: shown as it is.
    Plain,
}

/// The name of a picture format, as it stands in the summary and in the label.
pub open spec fn picture_name(p: Picture) -> Seq<char> {
    match p {
        Picture::Png => "png"@,
        Picture::Jpg => "jpg"@,
        Picture::Jpeg => "jpeg"@,
        Picture::Gif => "gif"@,
        Picture::Webp => "webp"@,
    }
}

/// A name, given in lower case, of a picture that does not move.
pub open spec fn still_name(lower: Seq<char>) -> bool {
    ||| text::ends_in(lower, ".png"@)
    ||| text::ends_in(lower, ".jpg"@)
    ||| text::ends_in(lower, ".webp"@)
}

/// `c` is the summary that stands for binary data.
pub open spec fn data_summary(c: Seq<char>) -> bool {
    text::begins_with(c, "[[ binary data "@) && text::ends_in(c, " ]]"@)
}

/// The picture format that the summary of binary data names; `lower` is it in lower case.
pub open spec fn data_picture(c: Seq<char>, lower: Seq<char>) -> Option<Picture> {
    if !data_summary(c) {
        None
    } else if text::has_text(lower, "png"@) {
        Some(Picture::Png)
    } else if text::has_text(lower, "jpg"@) {
        Some(Picture::Jpg)
    } else if text::has_text(lower, "jpeg"@) {
        Some(Picture::Jpeg)
    } else if text::has_text(lower, "gif"@) {
        Some(Picture::Gif)
    } else if text::has_text(lower, "webp"@) {
        Some(Picture::Webp)
    } else {
        None
    }
}

/// What a content `c` is labelled as; `lower` is it in lower case. The first that fits counts.
pub open spec fn label_of(c: Seq<char>, lower: Seq<char>) -> Label {
    let link = url::is_file_url(c);
    let path = content::is_absolute(c);
    let gif = text::ends_in(lower, ".gif"@);
    if media::video_name(lower) {
        if link {
            Label::VideoUrl
        } else {
            Label::VideoFile
        }
    } else if content::qq_video(c) {
        Label::VideoNote
    } else if text::has_text(c, "src=\"file://"@) && (text::has_text(c, "qq"@) || text::has_text(
        c,
        "QQ"@,
    )) {
        Label::ImageHtml
    } else if link && text::has_text(c, "xwechat"@) && text::has_text(c, "temp"@) {
        Label::ImageWeChat
    } else if link && gif {
        Label::GifUrl
    } else if link && still_name(lower) {
        Label::ImageUrl
    } else if link && text::has_text(c, ".config/QQ/"@) {
        Label::ImageQq
    } else if link {
        Label::FileUrl
    } else if path && gif {
        Label::GifPath
    } else if path && still_name(lower) {
        Label::ImagePath
    } else if data_picture(c, lower) is Some {
        Label::ImageData(data_picture(c, lower)->0)
    } else if text::has_text(c, "[[ binary data"@) {
        Label::Binary
    } else {
        Label::Plain
    }
}

/// The text of a label for the content `c`: coloured, but for plain content.
pub open spec fn label_text(label: Label, c: Seq<char>) -> Seq<char> {
    let magenta = "\x1b[1;35m"@;
    let blue = "\x1b[1;34m"@;
    let cyan = "\x1b[1;36m"@;
    let reset = "\x1b[0m"@;
    let ext = text::after_last(c, '.');
    match label {
        Label::VideoUrl => magenta + "[VIDEO]Url."@ + ext + reset,
        Label::VideoFile => magenta + "[VIDEO]File."@ + ext + reset,
        Label::VideoNote => magenta + "[VIDEO_HTML]QQ"@ + reset,
        Label::ImageHtml => blue + "[IMG_HTML]QQ"@ + reset,
        Label::ImageWeChat => blue + "[IMG_URL]WeChat"@ + reset,
        Label::GifUrl => blue + "[IMG]Url.gif"@ + reset,
        Label::ImageUrl => magenta + "[IMG]Url."@ + ext + reset,
        Label::ImageQq => blue + "[IMG_URL]QQ"@ + reset,
        Label::FileUrl => cyan + "[URL]File"@ + reset,
        Label::GifPath => blue + "[IMG]Path.gif"@ + reset,
        Label::ImagePath => magenta + "[IMG]Path."@ + ext + reset,
        Label::ImageData(p) => magenta + "[IMG]Bin."@ + picture_name(p) + reset,
        Label::Binary => cyan + "[BINARY]"@ + reset,
        Label::Plain => c,
    }
}

/// How the content `c` is shown; `lower` is it in lower case.
pub open spec fn shown_as(c: Seq<char>, lower: Seq<char>) -> Seq<char> {
    label_text(label_of(c, lower), c)
}

/// The picture format that the summary of binary data names.
fn find_picture(c: &[char], lower: &[char]) -> (res: Option<Picture>)
    ensures
        res == data_picture(c@, lower@),
{
    if !(text::starts_with(c, "[[ binary data ") && text::ends_with(c, " ]]")) {
        None
    } else if text::contains(lower, "png") {
        Some(Picture::Png)
    } else if text::contains(lower, "jpg") {
        Some(Picture::Jpg)
    } else if text::contains(lower, "jpeg") {
        Some(Picture::Jpeg)
    } else if text::contains(lower, "gif") {
        Some(Picture::Gif)
    } else if text::contains(lower, "webp") {
        Some(Picture::Webp)
    } else {
        None
    }
}

/// What a content is labelled as; `lower` is it in lower case.
pub fn classify(content: &str, lower: &str) -> (res: Label)
    ensures
        res == label_of(content@, lower@),
{
    let chars = text::chars_of(content);
    let c = chars.as_slice();
    let lower_chars = text::chars_of(lower);
    let l = lower_chars.as_slice();
    let link = text::starts_with(c, "file://");
    let path = text::starts_with(c, "/");
    let gif = text::ends_with(l, ".gif");
    let still = text::ends_with(l, ".png") || text::ends_with(l, ".jpg") || text::ends_with(
        l,
        ".webp",
    );
    if media::is_video_name(lower) {
        if link {
            return Label::VideoUrl;
        }
        return Label::VideoFile;
    }
    if content::is_qq_video(c) {
        return Label::VideoNote;
    }
    if text::contains(c, "src=\"file://") && (text::contains(c, "qq") || text::contains(c, "QQ")) {
        return Label::ImageHtml;
    }
    if link {
        if text::contains(c, "xwechat") && text::contains(c, "temp") {
            return Label::ImageWeChat;
        }
        if gif {
            return Label::GifUrl;
        }
        if still {
            return Label::ImageUrl;
        }
        if text::contains(c, ".config/QQ/") {
            return Label::ImageQq;
        }
        return Label::FileUrl;
    }
    if path && gif {
        return Label::GifPath;
    }
    if path && still {
        return Label::ImagePath;
    }
    if let Some(p) = find_picture(c, l) {
        return Label::ImageData(p);
    }
    if text::contains(c, "[[ binary data") {
        return Label::Binary;
    }
    Label::Plain
}

/// A colour, two pieces of text and the end of the colour.
fn coloured(colour: &str, tag: &str, ext: &str) -> (res: String)
    ensures
        res@ == colour@ + tag@ + ext@ + "\x1b[0m"@,
{
    let mut res = String::from_str(colour);
    res.append(tag);
    res.append(ext);
    res.append("\x1b[0m");
    res
}

/// A colour, a tag and the end of the colour.
fn tagged(colour: &str, tag: &str) -> (res: String)
    ensures
        res@ == colour@ + tag@ + "\x1b[0m"@,
{
    let mut res = String::from_str(colour);
    res.append(tag);
    res.append("\x1b[0m");
    res
}

/// The text of a label for a content.
pub fn render(label: Label, content: &str) -> (res: String)
    ensures
        res@ == label_text(label, content@),
{
    let magenta = "\x1b[1;35m";
    let blue = "\x1b[1;34m";
    let cyan = "\x1b[1;36m";
    let ext = text::text_after_last(text::chars_of(content).as_slice(), '.');
    match label {
        Label::VideoUrl => coloured(magenta, "[VIDEO]Url.", ext.as_str()),
        Label::VideoFile => coloured(magenta, "[VIDEO]File.", ext.as_str()),
        Label::VideoNote => tagged(magenta, "[VIDEO_HTML]QQ"),
        Label::ImageHtml => tagged(blue, "[IMG_HTML]QQ"),
        Label::ImageWeChat => tagged(blue, "[IMG_URL]WeChat"),
        Label::GifUrl => tagged(blue, "[IMG]Url.gif"),
        Label::ImageUrl => coloured(magenta, "[IMG]Url.", ext.as_str()),
        Label::ImageQq => tagged(blue, "[IMG_URL]QQ"),
        Label::FileUrl => tagged(cyan, "[URL]File"),
        Label::GifPath => tagged(blue, "[IMG]Path.gif"),
        Label::ImagePath => coloured(magenta, "[IMG]Path.", ext.as_str()),
        Label::ImageData(Picture::Png) => coloured(magenta, "[IMG]Bin.", "png"),
        Label::ImageData(Picture::Jpg) => coloured(magenta, "[IMG]Bin.", "jpg"),
        Label::ImageData(Picture::Jpeg) => coloured(magenta, "[IMG]Bin.", "jpeg"),
        Label::ImageData(Picture::Gif) => coloured(magenta, "[IMG]Bin.", "gif"),
        Label::ImageData(Picture::Webp) => coloured(magenta, "[IMG]Bin.", "webp"),
        Label::Binary => tagged(cyan, "[BINARY]"),
        Label::Plain => content.to_owned(),
    }
}

/// How a content is shown; `lower` is it in lower case.
pub fn format_lowered(content: &str, lower: &str) -> (res: String)
    ensures
        res@ == shown_as(content@, lower@),
{
    render(classify(content, lower), content)
}

/// How the content of an entry is shown in the list: a coloured label for what is recognised,
/// and anything else as it is.
pub fn format_content(c: &str) -> (res: String)
    ensures
        res@ == shown_as(c@, outside::lowercase(c@)),
        is_ascii_chars(c@) ==> res@ == shown_as(c@, outside::ascii_lowercase(c@)),
        outside::lower_form(c@, outside::lowercase(c@)),
{
    format_lowered(c, c.to_lowercase().as_str())
}

/// Content that is no URL, no absolute path, no name of a video, and holds none of the marks
/// of QQ or of binary data, is shown unchanged.
pub proof fn plain_content_is_kept(c: Seq<char>, lower: Seq<char>)
    requires
        !media::video_name(lower),
        !url::is_file_url(c),
        !content::is_absolute(c),
        !text::has_text(c, "QQRichEditFormat"@),
        !text::has_text(c, "src=\"file://"@),
        !text::has_text(c, "[[ binary data"@),
    ensures
        shown_as(c, lower) == c,
{
    if data_summary(c) {
        reveal_strlit("[[ binary data ");
        reveal_strlit("[[ binary data");
        let head = c.subrange(0, 15);
        assert forall|k: int| 0 <= k < 14 implies c[k] == "[[ binary data"@[k] by {
            assert(c[k] == head[k]);
        }
        assert(c.subrange(0, 14) =~= "[[ binary data"@);
        assert(text::occurs_at(c, "[[ binary data"@, 0));
    }
}

/// Content that is not shown unchanged is shown in a colour, and that colour is ended.
pub proof fn colours_are_ended(c: Seq<char>, lower: Seq<char>)
    ensures
        label_of(c, lower) != Label::Plain ==> text::begins_with(shown_as(c, lower), "\x1b[1;3"@)
            && text::ends_in(shown_as(c, lower), "\x1b[0m"@),
{
    let s = shown_as(c, lower);
    let reset = "\x1b[0m"@;
    reveal_strlit("\x1b[1;35m");
    reveal_strlit("\x1b[1;34m");
    reveal_strlit("\x1b[1;36m");
    reveal_strlit("\x1b[1;3");
    if label_of(c, lower) != Label::Plain {
        assert(s.subrange(0, 5) =~= "\x1b[1;3"@);
        assert(s.subrange(s.len() - reset.len(), s.len() as int) =~= reset);
    }
}

/// Content without a line feed is shown without one.
pub proof fn shown_on_one_line(c: Seq<char>, lower: Seq<char>)
    requires
        !c.contains('\n'),
    ensures
        !shown_as(c, lower).contains('\n'),
{
    let s = shown_as(c, lower);
    let ext = text::after_last(c, '.');
    text::lemma_after_last_in(c, '.', '\n');
    reveal_strlit("\x1b[1;35m");
    reveal_strlit("\x1b[1;34m");
    reveal_strlit("\x1b[1;36m");
    reveal_strlit("\x1b[0m");
    match label_of(c, lower) {
        Label::VideoUrl => reveal_strlit("[VIDEO]Url."),
        Label::VideoFile => reveal_strlit("[VIDEO]File."),
        Label::VideoNote => reveal_strlit("[VIDEO_HTML]QQ"),
        Label::ImageHtml => reveal_strlit("[IMG_HTML]QQ"),
        Label::ImageWeChat => reveal_strlit("[IMG_URL]WeChat"),
        Label::GifUrl => reveal_strlit("[IMG]Url.gif"),
        Label::ImageUrl => reveal_strlit("[IMG]Url."),
        Label::ImageQq => reveal_strlit("[IMG_URL]QQ"),
        Label::FileUrl => reveal_strlit("[URL]File"),
        Label::GifPath => reveal_strlit("[IMG]Path.gif"),
        Label::ImagePath => reveal_strlit("[IMG]Path."),
        Label::ImageData(p) => {
            reveal_strlit("[IMG]Bin.");
            reveal_strlit("png");
            reveal_strlit("jpg");
            reveal_strlit("jpeg");
            reveal_strlit("gif");
            reveal_strlit("webp");
        },
        Label::Binary => reveal_strlit("[BINARY]"),
        Label::Plain => {},
    }
    assert forall|i: int| 0 <= i < s.len() implies s[i] != '\n' by {
        assert(forall|j: int| 0 <= j < ext.len() ==> ext.contains(#[trigger] ext[j]));
        assert(forall|j: int| 0 <= j < c.len() ==> c.contains(#[trigger] c[j]));
    }
}

/// The extension of an ASCII name that ends in `end` in lower case: letters and digits alone.
proof fn lemma_extension(c: Seq<char>, end: Seq<char>)
    requires
        text::ends_in(outside::ascii_lowercase(c), end),
        end.len() > 0,
        end[0] == '.',
        forall|i: int| 1 <= i < end.len() ==> ('a' <= #[trigger] end[i] <= 'z' || '0' <= end[i] <= '9'),
    ensures
        forall|i: int|
            0 <= i < text::after_last(c, '.').len() ==> solid(#[trigger] text::after_last(c, '.')[i]),
{
    let lower = outside::ascii_lowercase(c);
    let at = c.len() - end.len();
    let tail = lower.subrange(at, lower.len() as int);
    assert forall|i: int| at <= i < c.len() implies outside::ascii_lower(c[i]) == end[i - at] by {
        assert(tail[i - at] == lower[i]);
    }
    assert(c[at] == '.');
    assert forall|i: int| at < i < c.len() implies c[i] != '.' && c[i] != '"' && c[i] != ' ' by {
        assert(outside::ascii_lower(c[i]) == end[i - at]);
    }
    text::lemma_after_last(c, '.', at + 1);
    let ext = c.skip(at + 1);
    assert forall|i: int| 0 <= i < ext.len() implies solid(#[trigger] ext[i]) by {
        assert(ext[i] == c[at + 1 + i]);
    }
}

/// `x` is neither a quote nor a space.
pub open spec fn solid(x: char) -> bool {
    x != '"' && x != ' '
}

/// What follows the last dot of the content `c` holds no quote and no space, or is ASCII.
pub open spec fn shown_ext(c: Seq<char>) -> bool {
    media::ascii_named(c) || forall|i: int|
        0 <= i < text::after_last(c, '.').len() ==> solid(#[trigger] text::after_last(c, '.')[i])
}

/// The extension that a label repeats holds no quote and no space.
proof fn lemma_shown_extension(c: Seq<char>, lower: Seq<char>)
    requires
        outside::lower_form(c, lower),
        media::video_name(lower) || still_name(lower),
        shown_ext(c),
    ensures
        forall|i: int|
            0 <= i < text::after_last(c, '.').len() ==> solid(#[trigger] text::after_last(c, '.')[i]),
{
    reveal_strlit(".mp4");
    reveal_strlit(".mkv");
    reveal_strlit(".webm");
    reveal_strlit(".avi");
    reveal_strlit(".mov");
    reveal_strlit(".flv");
    reveal_strlit(".wmv");
    reveal_strlit(".ts");
    reveal_strlit(".png");
    reveal_strlit(".jpg");
    reveal_strlit(".webp");
    if media::ascii_named(c) {
        let end = if text::ends_in(lower, ".mp4"@) {
            ".mp4"@
        } else if text::ends_in(lower, ".mkv"@) {
            ".mkv"@
        } else if text::ends_in(lower, ".webm"@) {
            ".webm"@
        } else if text::ends_in(lower, ".avi"@) {
            ".avi"@
        } else if text::ends_in(lower, ".mov"@) {
            ".mov"@
        } else if text::ends_in(lower, ".flv"@) {
            ".flv"@
        } else if text::ends_in(lower, ".wmv"@) {
            ".wmv"@
        } else if text::ends_in(lower, ".ts"@) {
            ".ts"@
        } else if text::ends_in(lower, ".png"@) {
            ".png"@
        } else if text::ends_in(lower, ".jpg"@) {
            ".jpg"@
        } else {
            ".webp"@
        };
        media::lemma_extension_agrees(c, lower, end);
        lemma_extension(c, end);
    }
}

/// The label repeats the extension of the content.
pub open spec fn repeats_extension(label: Label) -> bool {
    label == Label::VideoUrl || label == Label::VideoFile || label == Label::ImageUrl || label
        == Label::ImagePath
}

/// The text of a label holds no quote and no space, if what it repeats of the content does not.
proof fn lemma_label_text_chars(label: Label, c: Seq<char>)
    requires
        label != Label::Plain,
        repeats_extension(label) ==> forall|i: int|
            0 <= i < text::after_last(c, '.').len() ==> solid(#[trigger] text::after_last(c, '.')[i]),
    ensures
        forall|i: int|
            0 <= i < label_text(label, c).len() ==> solid(#[trigger] label_text(label, c)[i]),
{
    reveal_strlit("\x1b[1;35m");
    reveal_strlit("\x1b[1;34m");
    reveal_strlit("\x1b[1;36m");
    reveal_strlit("\x1b[0m");
    match label {
        Label::VideoUrl => reveal_strlit("[VIDEO]Url."),
        Label::VideoFile => reveal_strlit("[VIDEO]File."),
        Label::VideoNote => reveal_strlit("[VIDEO_HTML]QQ"),
        Label::ImageHtml => reveal_strlit("[IMG_HTML]QQ"),
        Label::ImageWeChat => reveal_strlit("[IMG_URL]WeChat"),
        Label::GifUrl => reveal_strlit("[IMG]Url.gif"),
        Label::ImageUrl => reveal_strlit("[IMG]Url."),
        Label::ImageQq => reveal_strlit("[IMG_URL]QQ"),
        Label::FileUrl => reveal_strlit("[URL]File"),
        Label::GifPath => reveal_strlit("[IMG]Path.gif"),
        Label::ImagePath => reveal_strlit("[IMG]Path."),
        Label::ImageData(p) => {
            reveal_strlit("[IMG]Bin.");
            reveal_strlit("png");
            reveal_strlit("jpg");
            reveal_strlit("jpeg");
            reveal_strlit("gif");
            reveal_strlit("webp");
        },
        Label::Binary => reveal_strlit("[BINARY]"),
        Label::Plain => {},
    }
}

/// A text that ends the colour is not the name of a video.
proof fn lemma_reset_is_no_video(s: Seq<char>, lower: Seq<char>)
    requires
        text::ends_in(s, "\x1b[0m"@),
        outside::lower_form(s, lower),
    ensures
        !media::video_name(lower),
{
    reveal_strlit("\x1b[0m");
    reveal_strlit(".mp4");
    reveal_strlit(".mkv");
    reveal_strlit(".webm");
    reveal_strlit(".avi");
    reveal_strlit(".mov");
    reveal_strlit(".flv");
    reveal_strlit(".wmv");
    reveal_strlit(".ts");
    let reset = s.skip(s.len() - 4);
    assert(reset =~= "\x1b[0m"@);
    assert(is_ascii_chars(reset));
    let n = lower.len() as int;
    assert(text::ends_in(lower, outside::ascii_lowercase(reset)));
    assert(lower.subrange(n - 4, n)[2] == '0');
    assert(lower[n - 2] == '0');
    if media::video_name(lower) {
        assert(n >= 5 ==> lower.subrange(n - 5, n)[3] == lower[n - 2]);
        assert(lower.subrange(n - 3, n)[1] == lower[n - 2]);
    }
}

/// A label is not labelled again: what a content is shown as is itself shown unchanged. `lower`
/// and `again` are the lower-case forms of the two.
pub proof fn label_is_kept(c: Seq<char>, lower: Seq<char>, again: Seq<char>)
    requires
        outside::lower_form(c, lower),
        outside::lower_form(shown_as(c, lower), again),
        shown_as(c, lower) == c ==> again == lower,
        repeats_extension(label_of(c, lower)) ==> shown_ext(c),
    ensures
        shown_as(shown_as(c, lower), again) == shown_as(c, lower),
{
    let s = shown_as(c, lower);
    if label_of(c, lower) != Label::Plain {
        colours_are_ended(c, lower);
        if repeats_extension(label_of(c, lower)) {
            lemma_shown_extension(c, lower);
        }
        lemma_label_text_chars(label_of(c, lower), c);
        lemma_reset_is_no_video(s, again);
        reveal_strlit("\x1b[1;3");
        reveal_strlit("file://");
        reveal_strlit("/");
        reveal_strlit("EditElement type=\"7\"");
        reveal_strlit("src=\"file://");
        reveal_strlit("[[ binary data");
        reveal_strlit("[[ binary data ");
        assert(s.subrange(0, 5)[0] == "\x1b[1;3"@[0]);
        assert(s[0] == '\x1b');
        if url::is_file_url(s) {
            assert(s.subrange(0, 7)[0] == "file://"@[0]);
        }
        if content::is_absolute(s) {
            assert(s.subrange(0, 1)[0] == "/"@[0]);
        }
        if data_summary(s) {
            assert(s.subrange(0, 15)[0] == "[[ binary data "@[0]);
        }
        text::lemma_lacks(s, "EditElement type=\"7\""@, 11);
        text::lemma_lacks(s, "src=\"file://"@, 4);
        text::lemma_lacks(s, "[[ binary data"@, 2);
    }
}

/// The lower-case form of a name with an ASCII extension ends in that extension in lower case,
/// and in no other.
proof fn lemma_lower_ends(p: Seq<char>, e: Seq<char>, lower: Seq<char>, end: Seq<char>)
    requires
        !e.contains('.'),
        is_ascii_chars(e),
        outside::lower_form(p + "."@ + e, lower),
        !end.contains('.'),
    ensures
        text::ends_in(lower, "."@ + end) <==> outside::ascii_lowercase(e) == end,
{
    reveal_strlit(".");
    let low = outside::ascii_lowercase(e);
    let whole = "."@ + end;
    media::lemma_lowered_extension(p, e);
    assert forall|i: int| 0 < i < whole.len() implies #[trigger] whole[i] != '.' by {
        assert(end.contains(end[i - 1]));
    }
    media::lemma_extension_agrees(p + "."@ + e, lower, whole);
    media::lemma_ends_in_extension(outside::ascii_lowercase(p), low, end);
}

/// A content that ends in a dot and the extension of a video, in letters of either case, is
/// labelled as a video with that extension, before all else: as that of a URL where it begins
/// with `file://`, and as that of a file otherwise.
pub proof fn videos_are_labelled(p: Seq<char>, e: Seq<char>, lower: Seq<char>)
    requires
        !e.contains('.'),
        is_ascii_chars(e),
        outside::lower_form(p + "."@ + e, lower),
        ({
            let ext = outside::ascii_lowercase(e);
            ext == "mp4"@ || ext == "mkv"@ || ext == "webm"@ || ext == "avi"@ || ext == "mov"@ || ext == "flv"@ || ext == "wmv"@ || ext == "ts"@
        }),
    ensures
        ({
            let c = p + "."@ + e;
            let url = exists|t: Seq<char>| c == #[trigger] ("file://"@ + t);
            &&& url ==> label_of(c, lower) == Label::VideoUrl && shown_as(c, lower)
                == "\x1b[1;35m"@ + "[VIDEO]Url."@ + e + "\x1b[0m"@
            &&& !url ==> label_of(c, lower) == Label::VideoFile && shown_as(c, lower)
                == "\x1b[1;35m"@ + "[VIDEO]File."@ + e + "\x1b[0m"@
        }),
{
    reveal_strlit(".");
    assert("."@ =~= seq!['.']);
    media::video_extensions_of_either_case(p, e, lower);
    text::last_splits(p, '.', e);
    text::search_is_exact(p + "."@ + e, "file://"@, 0);
}

/// Whatever lower-case form a content has: if that is the name of a video, the content is
/// labelled as one, with what stands behind its last dot.
pub proof fn videos_come_first(c: Seq<char>, lower: Seq<char>)
    requires
        media::video_name(lower),
    ensures
        shown_as(c, lower) == (if text::begins_with(c, "file://"@) {
            "\x1b[1;35m"@ + "[VIDEO]Url."@
        } else {
            "\x1b[1;35m"@ + "[VIDEO]File."@
        }) + text::after_last(c, '.') + "\x1b[0m"@,
{
}

/// The note of QQ for a video, and HTML of QQ with a picture file, are labelled so wherever
/// their marks stand, unless the content is the name of a video; the note comes first.
pub proof fn qq_is_labelled(c: Seq<char>, lower: Seq<char>)
    requires
        !media::video_name(lower),
    ensures
        text::has_text(c, "QQRichEditFormat"@) && text::has_text(c, "EditElement type=\"7\""@)
            ==> label_of(c, lower) == Label::VideoNote && shown_as(c, lower) == "\x1b[1;35m"@
            + "[VIDEO_HTML]QQ"@ + "\x1b[0m"@,
        !(text::has_text(c, "QQRichEditFormat"@) && text::has_text(c, "EditElement type=\"7\""@))
            && text::has_text(c, "src=\"file://"@) && (text::has_text(c, "qq"@) || text::has_text(
            c,
            "QQ"@,
        )) ==> label_of(c, lower) == Label::ImageHtml && shown_as(c, lower) == "\x1b[1;34m"@
            + "[IMG_HTML]QQ"@ + "\x1b[0m"@,
{
}

/// Every `file://` URL is labelled as one: as a temporary file of WeChat, a GIF, another picture
/// with its extension, a file of QQ, or just a file, in this order; unless it is the name of a
/// video or holds the marks of QQ.
pub proof fn file_urls_are_labelled(t: Seq<char>, lower: Seq<char>)
    requires
        ({
            let c = "file://"@ + t;
            &&& !(text::has_text(c, "QQRichEditFormat"@) && text::has_text(
                c,
                "EditElement type=\"7\""@,
            ))
            &&& !(text::has_text(c, "src=\"file://"@) && (text::has_text(c, "qq"@)
                || text::has_text(c, "QQ"@)))
        }),
        !media::video_name(lower),
    ensures
        ({
            let c = "file://"@ + t;
            let wechat = text::has_text(c, "xwechat"@) && text::has_text(c, "temp"@);
            let gif = text::ends_in(lower, ".gif"@);
            let still = text::ends_in(lower, ".png"@) || text::ends_in(lower, ".jpg"@)
                || text::ends_in(lower, ".webp"@);
            let qq = text::has_text(c, ".config/QQ/"@);
            &&& wechat ==> label_of(c, lower) == Label::ImageWeChat && shown_as(c, lower)
                == "\x1b[1;34m"@ + "[IMG_URL]WeChat"@ + "\x1b[0m"@
            &&& !wechat && gif ==> label_of(c, lower) == Label::GifUrl && shown_as(c, lower)
                == "\x1b[1;34m"@ + "[IMG]Url.gif"@ + "\x1b[0m"@
            &&& !wechat && !gif && still ==> label_of(c, lower) == Label::ImageUrl && shown_as(
                c,
                lower,
            ) == "\x1b[1;35m"@ + "[IMG]Url."@ + text::after_last(c, '.') + "\x1b[0m"@
            &&& !wechat && !gif && !still && qq ==> label_of(c, lower) == Label::ImageQq
                && shown_as(c, lower) == "\x1b[1;34m"@ + "[IMG_URL]QQ"@ + "\x1b[0m"@
            &&& !wechat && !gif && !still && !qq ==> label_of(c, lower) == Label::FileUrl
                && shown_as(c, lower) == "\x1b[1;36m"@ + "[URL]File"@ + "\x1b[0m"@
        }),
{
    url::urls_name_paths(t);
}

/// The path of a picture is labelled as one, with its extension: an absolute path with one of
/// four extensions, in letters of either case, whatever stands before, but for the marks of QQ.
/// Any other absolute path is shown as it is, unless it is that of a video or speaks of binary
/// data.
pub proof fn picture_paths_are_labelled(p: Seq<char>, e: Seq<char>, lower: Seq<char>)
    requires
        !e.contains('.'),
        is_ascii_chars(e),
        outside::lower_form("/"@ + p + "."@ + e, lower),
        ({
            let c = "/"@ + p + "."@ + e;
            &&& !(text::has_text(c, "QQRichEditFormat"@) && text::has_text(
                c,
                "EditElement type=\"7\""@,
            ))
            &&& !(text::has_text(c, "src=\"file://"@) && (text::has_text(c, "qq"@)
                || text::has_text(c, "QQ"@)))
        }),
    ensures
        ({
            let c = "/"@ + p + "."@ + e;
            let ext = outside::ascii_lowercase(e);
            let still = ext == "png"@ || ext == "jpg"@ || ext == "webp"@;
            let video = ext == "mp4"@ || ext == "mkv"@ || ext == "webm"@ || ext == "avi"@ || ext == "mov"@ || ext == "flv"@ || ext == "wmv"@ || ext == "ts"@;
            &&& still ==> label_of(c, lower) == Label::ImagePath && shown_as(c, lower)
                == "\x1b[1;35m"@ + "[IMG]Path."@ + e + "\x1b[0m"@
            &&& ext == "gif"@ ==> label_of(c, lower) == Label::GifPath && shown_as(c, lower)
                == "\x1b[1;34m"@ + "[IMG]Path.gif"@ + "\x1b[0m"@
            &&& !still && ext != "gif"@ && !video && !text::has_text(c, "[[ binary data"@)
                ==> label_of(c, lower) == Label::Plain && shown_as(c, lower) == c
        }),
{
    reveal_strlit(".");
    reveal_strlit("/");
    reveal_strlit("file://");
    reveal_strlit("[[ binary data ");
    reveal_strlit("mp4");
    reveal_strlit("mkv");
    reveal_strlit("webm");
    reveal_strlit("avi");
    reveal_strlit("mov");
    reveal_strlit("flv");
    reveal_strlit("wmv");
    reveal_strlit("ts");
    reveal_strlit("png");
    reveal_strlit("jpg");
    reveal_strlit("webp");
    reveal_strlit("gif");
    reveal_strlit(".png");
    reveal_strlit(".jpg");
    reveal_strlit(".webp");
    reveal_strlit(".gif");
    let c = "/"@ + p + "."@ + e;
    assert("."@ =~= seq!['.']);
    media::video_extensions_of_either_case("/"@ + p, e, lower);
    let ext = outside::ascii_lowercase(e);
    assert(ext == "png"@ ==> ext[0] == 'p');
    assert(ext == "jpg"@ ==> ext[0] == 'j');
    assert(ext == "gif"@ ==> ext[0] == 'g');
    assert(ext == "webp"@ ==> ext.len() == 4 && ext[3] == 'p');
    assert(ext == "webm"@ ==> ext.len() == 4 && ext[3] == 'm');
    assert(ext == "mp4"@ || ext == "mkv"@ || ext == "mov"@ ==> ext[0] == 'm');
    assert(ext == "avi"@ ==> ext[0] == 'a');
    assert(ext == "flv"@ ==> ext[0] == 'f');
    assert(ext == "wmv"@ ==> ext[0] == 'w' && ext.len() == 3);
    assert(ext == "ts"@ ==> ext[0] == 't');
    lemma_lower_ends("/"@ + p, e, lower, "png"@);
    lemma_lower_ends("/"@ + p, e, lower, "jpg"@);
    lemma_lower_ends("/"@ + p, e, lower, "webp"@);
    lemma_lower_ends("/"@ + p, e, lower, "gif"@);
    assert("."@ + "png"@ =~= ".png"@);
    assert("."@ + "jpg"@ =~= ".jpg"@);
    assert("."@ + "webp"@ =~= ".webp"@);
    assert("."@ + "gif"@ =~= ".gif"@);
    text::last_splits("/"@ + p, '.', e);
    content::paths_begin_with_slash(c);
    content::url_is_no_path(c);
    assert(!data_summary(c)) by {
        if data_summary(c) {
            assert(c.subrange(0, 15)[0] == "[[ binary data "@[0]);
        }
    }
}

/// The same of any absolute path by the ends of its lower-case form.
pub proof fn paths_are_labelled(c: Seq<char>, lower: Seq<char>)
    requires
        c.len() > 0,
        c[0] == '/',
        !media::video_name(lower),
        !(text::has_text(c, "QQRichEditFormat"@) && text::has_text(c, "EditElement type=\"7\""@)),
        !(text::has_text(c, "src=\"file://"@) && (text::has_text(c, "qq"@) || text::has_text(c, "QQ"@))),
    ensures
        ({
            let gif = text::ends_in(lower, ".gif"@);
            let still = text::ends_in(lower, ".png"@) || text::ends_in(lower, ".jpg"@)
                || text::ends_in(lower, ".webp"@);
            &&& gif ==> label_of(c, lower) == Label::GifPath
            &&& !gif && still ==> label_of(c, lower) == Label::ImagePath && shown_as(c, lower)
                == "\x1b[1;35m"@ + "[IMG]Path."@ + text::after_last(c, '.') + "\x1b[0m"@
            &&& !gif && !still && text::has_text(c, "[[ binary data"@) ==> label_of(c, lower)
                == Label::Binary
            &&& !gif && !still && !text::has_text(c, "[[ binary data"@) ==> shown_as(c, lower) == c
        }),
{
    reveal_strlit("[[ binary data ");
    content::paths_begin_with_slash(c);
    content::url_is_no_path(c);
    if data_summary(c) {
        assert(c.subrange(0, 15)[0] == "[[ binary data "@[0]);
    }
}

/// The summary of binary data is labelled by the first picture format that it names, and as
/// binary data where it names none; so is any other content that speaks of binary data, if it
/// has no other label.
pub proof fn binary_data_is_labelled(c: Seq<char>, lower: Seq<char>)
    requires
        text::has_text(c, "[[ binary data"@),
        !text::begins_with(c, "file://"@),
        !text::begins_with(c, "/"@),
        !media::video_name(lower),
        !(text::has_text(c, "QQRichEditFormat"@) && text::has_text(c, "EditElement type=\"7\""@)),
        !(text::has_text(c, "src=\"file://"@) && (text::has_text(c, "qq"@) || text::has_text(c, "QQ"@))),
    ensures
        ({
            let summary = text::begins_with(c, "[[ binary data "@) && text::ends_in(c, " ]]"@);
            let png = text::has_text(lower, "png"@);
            let jpg = text::has_text(lower, "jpg"@);
            let jpeg = text::has_text(lower, "jpeg"@);
            let gif = text::has_text(lower, "gif"@);
            let webp = text::has_text(lower, "webp"@);
            let (start, end) = ("\x1b[1;35m"@ + "[IMG]Bin."@, "\x1b[0m"@);
            &&& summary && png ==> label_of(c, lower) == Label::ImageData(Picture::Png) && shown_as(
                c,
                lower,
            ) == start + "png"@ + end
            &&& summary && !png && jpg ==> label_of(c, lower) == Label::ImageData(Picture::Jpg)
                && shown_as(c, lower) == start + "jpg"@ + end
            &&& summary && !png && !jpg && jpeg ==> label_of(c, lower) == Label::ImageData(
                Picture::Jpeg,
            ) && shown_as(c, lower) == start + "jpeg"@ + end
            &&& summary && !png && !jpg && !jpeg && gif ==> label_of(c, lower) == Label::ImageData(
                Picture::Gif,
            ) && shown_as(c, lower) == start + "gif"@ + end
            &&& summary && !png && !jpg && !jpeg && !gif && webp ==> label_of(c, lower)
                == Label::ImageData(Picture::Webp) && shown_as(c, lower) == start + "webp"@ + end
            &&& !summary || (!png && !jpg && !jpeg && !gif && !webp) ==> label_of(c, lower)
                == Label::Binary && shown_as(c, lower) == "\x1b[1;36m"@ + "[BINARY]"@ + "\x1b[0m"@
        }),
{
}

/// Content that is no `file://` URL, no absolute path, no name of a video, speaks of no binary
/// data and does not hold the marks of QQ together is shown as it is.
pub proof fn other_content_is_kept(c: Seq<char>, lower: Seq<char>)
    requires
        !text::begins_with(c, "file://"@),
        !text::begins_with(c, "/"@),
        !media::video_name(lower),
        !text::has_text(c, "[[ binary data"@),
        !(text::has_text(c, "QQRichEditFormat"@) && text::has_text(c, "EditElement type=\"7\""@)),
        !(text::has_text(c, "src=\"file://"@) && (text::has_text(c, "qq"@) || text::has_text(c, "QQ"@))),
    ensures
        label_of(c, lower) == Label::Plain,
        shown_as(c, lower) == c,
{
    if data_summary(c) {
        reveal_strlit("[[ binary data ");
        reveal_strlit("[[ binary data");
        let head = c.subrange(0, 15);
        assert forall|k: int| 0 <= k < 14 implies c[k] == "[[ binary data"@[k] by {
            assert(c[k] == head[k]);
        }
        assert(c.subrange(0, 14) =~= "[[ binary data"@);
        assert(text::occurs_at(c, "[[ binary data"@, 0));
    }
}

/// The text of a label but for the plain one depends on the extension of the content alone, and
/// that of ten labels not even on that.
pub proof fn labels_read_alike(label: Label, c: Seq<char>, d: Seq<char>)
    requires
        label != Label::Plain,
        repeats_extension(label) ==> text::after_last(c, '.') == text::after_last(d, '.'),
    ensures
        label_text(label, c) == label_text(label, d),
        label_text(Label::Plain, c) == c,
        repeats_extension(label) <==> label == Label::VideoUrl || label == Label::VideoFile || label
            == Label::ImageUrl || label == Label::ImagePath,
{
}

} // verus!
