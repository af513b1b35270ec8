//! How the content of an entry is told apart when it is previewed, copied or opened.
use crate::media;
use crate::outside;
use crate::text;
use crate::url;
use vstd::prelude::*;

verus! {

/// `s` is the note that QQ leaves for a video: rich text with an element of type 7.
pub open spec fn qq_video(s: Seq<char>) -> bool {
    text::has_text(s, "QQRichEditFormat"@) && text::has_text(s, "EditElement type=\"7\""@)
}

/// Whether `s` is the note that QQ leaves for a video.
pub fn is_qq_video(s: &[char]) -> (res: bool)
    ensures
        res == qq_video(s@),
{
    text::contains(s, "QQRichEditFormat") && text::contains(s, "EditElement type=\"7\"")
}

/// The path of the first picture in a piece of HTML.
pub open spec fn html_image(s: Seq<char>) -> Option<Seq<char>> {
    outside::quoted_behind(s, "<img src=\"file://"@)
}

/// The path of the first picture in a piece of HTML.
pub fn html_image_path(s: &str) -> (res: Option<String>)
    ensures
        text::text_in(res) == html_image(s@),
{
    outside::captured("<img sr[c]=\"file://([^\"]+)\"", s)
}

/// The path of the video that a note of QQ names.
pub open spec fn qq_video_file(s: Seq<char>) -> Option<Seq<char>> {
    outside::quoted_behind(s, "filepath=\""@)
}

/// The path of the video that a note of QQ names.
pub fn qq_video_path(s: &str) -> (res: Option<String>)
    ensures
        text::text_in(res) == qq_video_file(s@),
{
    outside::captured("filepath=\"([^\"]+)\"", s)
}

/// `s` begins like an absolute path.
pub open spec fn is_absolute(s: Seq<char>) -> bool {
    text::begins_with(s, "/"@)
}

/// What an entry holds.
#[derive(Clone, Copy, Debug, PartialEq, Eq, Structural)]
pub enum Kind {
    /// The bytes of a picture.
    Picture,
    /// HTML with a mark that tells that a picture file is named in it.
    Html,
    /// The note that QQ leaves for a video.
    Note,
    /// A `file://` URL.
    Url,
    /// An absolute path.
    Path,
    /// Anything else.
    Plain,
}

/// What an entry holds, by its MIME type and its text. HTML counts where `mark` stands in it;
/// the first that fits counts.
pub open spec fn kind_of(mime: Seq<char>, text: Seq<char>, mark: Seq<char>) -> Kind {
    if media::is_image(mime) {
        Kind::Picture
    } else if mime == "text/html"@ && text::has_text(text, mark) {
        Kind::Html
    } else if qq_video(text) {
        Kind::Note
    } else if url::is_file_url(text) {
        Kind::Url
    } else if is_absolute(text) {
        Kind::Path
    } else {
        Kind::Plain
    }
}

/// What an entry holds, by its MIME type and its text. HTML counts where `mark` stands in it.
pub fn kind(mime: &str, text: &str, mark: &str) -> (res: Kind)
    ensures
        res == kind_of(mime@, text@, mark@),
{
    let chars = text::chars_of(text);
    let s = chars.as_slice();
    if media::is_image_mime(mime) {
        Kind::Picture
    } else if text::same_text(mime, "text/html") && text::contains(s, mark) {
        Kind::Html
    } else if is_qq_video(s) {
        Kind::Note
    } else if text::starts_with(s, "file://") {
        Kind::Url
    } else if text::starts_with(s, "/") {
        Kind::Path
    } else {
        Kind::Plain
    }
}

/// A message for the desktop.
#[derive(Debug)]
pub struct Notice<T> {
    pub title: T,
    pub body: T,
}

impl View for Notice<String> {
    type V = Notice<Seq<char>>;

    open spec fn view(&self) -> Notice<Seq<char>> {
        Notice { title: self.title@, body: self.body@ }
    }
}

/// A message for the desktop.
pub fn notice(title: &str, body: &str) -> (res: Notice<String>)
    ensures
        res@ == (Notice { title: title@, body: body@ }),
{
    Notice { title: title.to_owned(), body: body.to_owned() }
}

/// Nothing is both a `file://` URL and an absolute path.
pub proof fn url_is_no_path(s: Seq<char>)
    ensures
        !(url::is_file_url(s) && is_absolute(s)),
{
    reveal_strlit("file://");
    reveal_strlit("/");
    if url::is_file_url(s) && is_absolute(s) {
        assert(s.subrange(0, 7)[0] == "file://"@[0]);
        assert(s.subrange(0, 1)[0] == "/"@[0]);
    }
}

/// The `file://` URL of any path is taken as a URL, whatever the path holds, unless the MIME
/// type is that of a picture. Trimming line ends leaves it as it is.
pub proof fn url_of_path_is_url(path: Seq<char>, mime: Seq<char>)
    requires
        !media::is_image(mime),
    ensures
        text::without_line_ends(url::url_of(path)) == url::url_of(path),
        kind_of(mime, url::url_of(path), "<img src=\"file://"@) == Kind::Url,
        mime != "text/html"@ ==> kind_of(mime, url::url_of(path), "QQ"@) == Kind::Url,
{
    let link = url::url_of(path);
    let enc = url::encoded_path(path);
    url::url_names_its_path(path);
    url::lemma_url_path_chars(vstd::utf8::encode_utf8(path));
    reveal_strlit("file://");
    reveal_strlit("<img src=\"file://");
    reveal_strlit("EditElement type=\"7\"");
    assert forall|i: int| 0 <= i < link.len() implies link[i] != '<' && link[i] != ' ' && link[i]
        != '\n' && link[i] != '\r' by {
        if i < 7 {
            assert(link[i] == "file://"@[i]);
        } else {
            assert(link[i] == enc[i - 7]);
            assert(url::url_path_char(enc[i - 7]));
        }
    }
    text::lemma_lacks(link, "<img src=\"file://"@, 0);
    text::lemma_lacks(link, "EditElement type=\"7\""@, 11);
    assert(!text::line_end(link.last()));
}

/// The first `lead` with a text in quotes behind it gives that text, up to the next quote.
proof fn lemma_quoted(
    a: Seq<char>,
    lead: Seq<char>,
    p: Seq<char>,
    b: Seq<char>,
)
    requires
        p.len() > 0,
        !p.contains('"'),
        forall|i: int| 0 <= i < a.len() ==> !text::occurs_at(a + lead + p + "\""@ + b, lead, i),
    ensures
        outside::quoted_behind(a + lead + p + "\""@ + b, lead) == Some(p),
    decreases a.len(),
{
    reveal_strlit("\"");
    let s = a + lead + p + "\""@ + b;
    if a.len() == 0 {
        let rest = s.skip(lead.len() as int);
        assert(rest =~= p + "\""@ + b);
        assert(forall|j: int| 0 <= j < p.len() ==> p.contains(#[trigger] p[j]));
        text::lemma_first_index_is(rest, '"', p.len() as int);
        assert(s.subrange(0, lead.len() as int) =~= lead);
        assert(rest.take(p.len() as int) =~= p);
    } else {
        let rest = a.drop_first();
        let t = rest + lead + p + "\""@ + b;
        assert(s.drop_first() =~= t);
        assert forall|i: int| 0 <= i < rest.len() implies !text::occurs_at(t, lead, i) by {
            if text::occurs_at(t, lead, i) {
                assert(t.subrange(i, i + lead.len()) =~= s.subrange(i + 1, i + 1 + lead.len()));
                assert(text::occurs_at(s, lead, i + 1));
            }
        }
        assert(!text::occurs_at(s, lead, 0));
        lemma_quoted(rest, lead, p, b);
    }
}

/// What is found in quotes behind `lead` stands there.
proof fn lemma_quoted_stands(s: Seq<char>, lead: Seq<char>)
    ensures
        outside::quoted_behind(s, lead) matches Some(p) ==> p.len() > 0 && !p.contains('"')
            && text::has_text(s, lead + p + "\""@),
    decreases s.len(),
{
    reveal_strlit("\"");
    if let Some(p) = outside::quoted_behind(s, lead) {
        let whole = lead + p + "\""@;
        if outside::quoted_first(s, lead) is Some {
            let rest = s.skip(lead.len() as int);
            text::lemma_first_index(rest, '"');
            assert(s.subrange(0, whole.len() as int) =~= whole) by {
                assert(s.subrange(0, lead.len() as int) == lead);
                assert forall|i: int| 0 <= i < whole.len() implies s[i] == whole[i] by {
                    if i < lead.len() {
                        assert(s.subrange(0, lead.len() as int)[i] == lead[i]);
                    } else {
                        assert(rest[i - lead.len()] == s[i]);
                    }
                }
            }
            assert(text::occurs_at(s, whole, 0));
        } else {
            let t = s.drop_first();
            lemma_quoted_stands(t, lead);
            let i = choose|i: int| text::occurs_at(t, whole, i);
            assert(t.subrange(i, i + whole.len()) =~= s.subrange(i + 1, i + 1 + whole.len()));
            assert(text::occurs_at(s, whole, i + 1));
        }
    }
}

/// The path of the picture in a piece of HTML stands in quotes behind the first
/// `<img src="file://`, and goes up to the next quote. What is found always stands so, and
/// nothing is found where there is no such mark.
pub proof fn html_names_its_picture(a: Seq<char>, p: Seq<char>, b: Seq<char>, s: Seq<char>)
    ensures
        p.len() > 0 && !p.contains('"') && (forall|i: int|
            0 <= i < a.len() ==> !text::occurs_at(
                a + "<img src=\"file://"@ + p + "\""@ + b,
                "<img src=\"file://"@,
                i,
            )) ==> html_image(a + "<img src=\"file://"@ + p + "\""@ + b) == Some(p),
        html_image(s) matches Some(path) ==> path.len() > 0 && !path.contains('"')
            && text::has_text(s, "<img src=\"file://"@ + path + "\""@),
        !text::has_text(s, "<img src=\"file://"@) ==> html_image(s) is None,
{
    let lead = "<img src=\"file://"@;
    if p.len() > 0 && !p.contains('"') && (forall|i: int|
        0 <= i < a.len() ==> !text::occurs_at(a + lead + p + "\""@ + b, lead, i)) {
        lemma_quoted(a, lead, p, b);
    }
    lemma_quoted_stands(s, lead);
    if let Some(path) = html_image(s) {
        lemma_has_front(s, lead, path + "\""@);
        assert(lead + (path + "\""@) =~= lead + path + "\""@);
    }
}

/// What holds a text holds its front.
proof fn lemma_has_front(s: Seq<char>, front: Seq<char>, behind: Seq<char>)
    ensures
        text::has_text(s, front + behind) ==> text::has_text(s, front),
{
    if text::has_text(s, front + behind) {
        let i = choose|i: int| text::occurs_at(s, front + behind, i);
        assert(s.subrange(i, i + front.len()) =~= s.subrange(
            i,
            i + (front + behind).len(),
        ).take(front.len() as int));
        assert((front + behind).take(front.len() as int) =~= front);
        assert(text::occurs_at(s, front, i));
    }
}

/// The path of the video in a note of QQ stands in quotes behind the first `filepath=`, and goes
/// up to the next quote. What is found always stands so, and nothing is found where there is no
/// such mark.
pub proof fn note_names_its_video(a: Seq<char>, p: Seq<char>, b: Seq<char>, s: Seq<char>)
    ensures
        p.len() > 0 && !p.contains('"') && (forall|i: int|
            0 <= i < a.len() ==> !text::occurs_at(
                a + "filepath=\""@ + p + "\""@ + b,
                "filepath=\""@,
                i,
            )) ==> qq_video_file(a + "filepath=\""@ + p + "\""@ + b) == Some(p),
        qq_video_file(s) matches Some(path) ==> path.len() > 0 && !path.contains('"')
            && text::has_text(s, "filepath=\""@ + path + "\""@),
        !text::has_text(s, "filepath=\""@) ==> qq_video_file(s) is None,
{
    let lead = "filepath=\""@;
    if p.len() > 0 && !p.contains('"') && (forall|i: int|
        0 <= i < a.len() ==> !text::occurs_at(a + lead + p + "\""@ + b, lead, i)) {
        lemma_quoted(a, lead, p, b);
    }
    lemma_quoted_stands(s, lead);
    if let Some(path) = qq_video_file(s) {
        lemma_has_front(s, lead, path + "\""@);
        assert(lead + (path + "\""@) =~= lead + path + "\""@);
    }
}

/// A mark with no text in its quotes is passed over, for the next.
pub proof fn empty_quotes_are_passed_over(rest: Seq<char>)
    ensures
        html_image("<img src=\"file://\""@ + rest) == html_image(rest),
        qq_video_file("filepath=\"\""@ + rest) == qq_video_file(rest),
{
    reveal_strlit("<img src=\"file://\"");
    reveal_strlit("<img src=\"file://");
    reveal_strlit("filepath=\"\"");
    reveal_strlit("filepath=\"");
    lemma_pass_over("<img src=\"file://\""@, rest, "<img src=\"file://"@, 0);
    lemma_pass_over("filepath=\"\""@, rest, "filepath=\""@, 0);
    assert("<img src=\"file://\""@.skip(0) =~= "<img src=\"file://\""@);
    assert("filepath=\"\""@.skip(0) =~= "filepath=\"\""@);
}

/// A mark with empty quotes behind it is passed over, character by character.
proof fn lemma_pass_over(mark: Seq<char>, rest: Seq<char>, lead: Seq<char>, k: int)
    requires
        0 <= k <= mark.len(),
        mark.len() == lead.len() + 1,
        lead.len() > 0,
        mark.last() == '"',
        forall|i: int| 0 <= i < lead.len() ==> #[trigger] mark[i] == lead[i],
        forall|i: int| 1 <= i < mark.len() ==> #[trigger] mark[i] != lead[0],
    ensures
        outside::quoted_behind(mark.skip(k) + rest, lead) == outside::quoted_behind(rest, lead),
    decreases mark.len() - k,
{
    let s = mark.skip(k) + rest;
    if k == mark.len() {
        assert(s =~= rest);
    } else {
        lemma_pass_over(mark, rest, lead, k + 1);
        assert(s.drop_first() =~= mark.skip(k + 1) + rest);
        if k == 0 {
            let behind = s.skip(lead.len() as int);
            assert(behind[0] == '"');
            assert(text::first_index(behind, '"') == 0);
        } else if text::begins_with(s, lead) {
            assert(s.subrange(0, lead.len() as int)[0] == lead[0]);
            assert(s[0] == mark[k]);
        }
        assert(outside::quoted_first(s, lead) is None);
    }
}

/// A message is seen as its title and its body.
pub proof fn notice_is_seen(n: Notice<String>)
    ensures
        n@.title == n.title@,
        n@.body == n.body@,
{
}

/// An absolute path is any text that begins with a slash.
pub proof fn paths_begin_with_slash(s: Seq<char>)
    ensures
        is_absolute(s) <==> s.len() > 0 && s[0] == '/',
{
    reveal_strlit("/");
    if s.len() > 0 {
        assert(s.subrange(0, 1) =~= seq![s[0]]);
        assert("/"@ =~= seq!['/']);
        if is_absolute(s) {
            assert(s.subrange(0, 1)[0] == '/');
        }
    }
}

/// What every content is taken as. A picture goes by its type alone; then comes HTML with the
/// mark in it, wherever it stands, then the note of QQ, by both of its marks, a `file://` URL, an
/// absolute path, and at last anything else.
pub proof fn kinds_are_told(mime: Seq<char>, text: Seq<char>, mark: Seq<char>)
    ensures
        ({
            let picture = exists|s: Seq<char>| mime == #[trigger] ("image/"@ + s);
            let html = mime == "text/html"@ && exists|a: Seq<char>, b: Seq<char>|
                text == #[trigger] (a + mark + b);
            let note = (exists|a: Seq<char>, b: Seq<char>|
                text == #[trigger] (a + "QQRichEditFormat"@ + b)) && (exists|
                a: Seq<char>,
                b: Seq<char>,
            | text == #[trigger] (a + "EditElement type=\"7\""@ + b));
            let url = exists|t: Seq<char>| text == #[trigger] ("file://"@ + t);
            let path = text.len() > 0 && text[0] == '/';
            let kind = kind_of(mime, text, mark);
            &&& picture ==> kind == Kind::Picture
            &&& !picture && html ==> kind == Kind::Html
            &&& !picture && !html && note ==> kind == Kind::Note
            &&& !picture && !html && !note && url ==> kind == Kind::Url
            &&& !picture && !html && !note && !url && path ==> kind == Kind::Path
            &&& !picture && !html && !note && !url && !path ==> kind == Kind::Plain
        }),
{
    media::pictures_by_type(mime, mime);
    text::search_is_exact(text, mark, 0);
    text::search_is_exact(text, "QQRichEditFormat"@, 0);
    text::search_is_exact(text, "EditElement type=\"7\""@, 0);
    text::search_is_exact(text, "file://"@, 0);
    paths_begin_with_slash(text);
}

} // verus!
