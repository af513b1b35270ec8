//! What is put on the clipboard for a selected entry.
use crate::content;
use crate::media;
use crate::text;
use crate::url;
use vstd::prelude::*;
use vstd::slice::*;
use vstd::string::*;
use vstd::utf8::*;

verus! {

/// One step of copying an entry.
#[derive(Debug)]
pub enum CopyStep<B, T> {
    /// Leave the clipboard as it is.
    Nothing,
    /// Put `payload` on the clipboard, under the type `mime` if there is one, and tell it.
    Offer { payload: B, mime: Option<T>, notice: Option<content::Notice<T>> },
    /// Ask whether there is a file at this path, and go on with `copy_found`.
    AskExists(T),
}

impl View for CopyStep<Vec<u8>, String> {
    type V = CopyStep<Seq<u8>, Seq<char>>;

    open spec fn view(&self) -> CopyStep<Seq<u8>, Seq<char>> {
        match *self {
            CopyStep::Nothing => CopyStep::Nothing,
            CopyStep::Offer { payload, mime, notice } => CopyStep::Offer {
                payload: payload@,
                mime: text::text_in(mime),
                notice: match notice {
                    Some(n) => Some(n@),
                    None => None,
                },
            },
            CopyStep::AskExists(path) => CopyStep::AskExists(path@),
        }
    }
}

/// The bytes of the entry, as they are.
pub open spec fn offer_raw(
    raw: Seq<u8>,
    notice: Option<content::Notice<Seq<char>>>,
) -> CopyStep<Seq<u8>, Seq<char>> {
    CopyStep::Offer { payload: raw, mime: None, notice }
}

/// The URL `link`, as a list of URIs, with a message that names `what`.
pub open spec fn offer_link(link: Seq<char>, title: Seq<char>, what: Seq<char>) -> CopyStep<
    Seq<u8>,
    Seq<char>,
> {
    CopyStep::Offer {
        payload: encode_utf8(link),
        mime: Some("text/uri-list"@),
        notice: Some(content::Notice { title, body: what }),
    }
}

/// The URL of a path that was found in the text of an entry, if one was.
pub open spec fn offer_path(path: Option<Seq<char>>, title: Seq<char>) -> CopyStep<
    Seq<u8>,
    Seq<char>,
> {
    match path {
        Some(path) => offer_link(url::url_of(path), title, path),
        None => CopyStep::Nothing,
    }
}

/// What an entry holds, when it is copied or opened.
pub open spec fn copy_kind(mime: Seq<char>, text: Seq<char>) -> content::Kind {
    content::kind_of(mime, text, "<img src=\"file://"@)
}

/// The first step of copying the entry `id` with the bytes `raw`, the type `mime` and the text
/// `text`.
pub open spec fn copy_of(
    id: Seq<char>,
    raw: Seq<u8>,
    mime: Seq<char>,
    text: Seq<char>,
) -> CopyStep<Seq<u8>, Seq<char>> {
    match copy_kind(mime, text) {
        content::Kind::Picture => offer_raw(
            raw,
            Some(content::Notice { title: "Copied Image"@, body: id }),
        ),
        content::Kind::Html => offer_path(content::html_image(text), "Copied QQ Link"@),
        content::Kind::Note => offer_path(content::qq_video_file(text), "Copied QQ Video"@),
        content::Kind::Url => offer_link(text, "Copied File Link"@, text),
        content::Kind::Path => CopyStep::AskExists(text),
        content::Kind::Plain => offer_raw(raw, None),
    }
}

/// The step once it is known whether there is a file at `path`.
pub open spec fn copy_found_of(raw: Seq<u8>, path: Seq<char>, exists: bool) -> CopyStep<
    Seq<u8>,
    Seq<char>,
> {
    if exists {
        offer_path(Some(path), "Copied File Path"@)
    } else {
        offer_raw(raw, None)
    }
}

/// Offers the bytes of the entry, as they are.
fn raw_step(raw: &[u8], notice: Option<content::Notice<String>>) -> (res: CopyStep<Vec<u8>, String>)
    ensures
        res@ == offer_raw(
            raw@,
            match notice {
                Some(n) => Some(n@),
                None => None,
            },
        ),
{
    CopyStep::Offer { payload: slice_to_vec(raw), mime: None, notice }
}

/// Offers the URL `link`, as a list of URIs, with a message that names `what`.
fn link_step(link: &str, title: &str, what: &str) -> (res: CopyStep<Vec<u8>, String>)
    ensures
        res@ == offer_link(link@, title@, what@),
{
    CopyStep::Offer {
        payload: link.as_bytes_vec(),
        mime: Some(String::from_str("text/uri-list")),
        notice: Some(content::notice(title, what)),
    }
}

/// Offers the URL of a path that was found in the text of an entry, if one was.
fn path_step(path: Option<String>, title: &str) -> (res: CopyStep<Vec<u8>, String>)
    ensures
        res@ == offer_path(text::text_in(path), title@),
{
    match path {
        Some(path) => link_step(url::file_url(path.as_str()).as_str(), title, path.as_str()),
        None => CopyStep::Nothing,
    }
}

/// The first step of copying the entry `id` with the bytes `raw`, the type `mime` and the text
/// `text`.
pub fn copy_step(id: &str, raw: &[u8], mime: &str, text: &str) -> (res: CopyStep<Vec<u8>, String>)
    ensures
        res@ == copy_of(id@, raw@, mime@, text@),
{
    match content::kind(mime, text, "<img src=\"file://") {
        content::Kind::Picture => raw_step(raw, Some(content::notice("Copied Image", id))),
        content::Kind::Html => path_step(content::html_image_path(text), "Copied QQ Link"),
        content::Kind::Note => path_step(content::qq_video_path(text), "Copied QQ Video"),
        content::Kind::Url => link_step(text, "Copied File Link", text),
        content::Kind::Path => CopyStep::AskExists(text.to_owned()),
        content::Kind::Plain => raw_step(raw, None),
    }
}

/// The first step of copying the entry `id` with the bytes `raw` and the type `mime`.
pub fn run_copy(id: &str, raw: &[u8], mime: &str) -> (res: CopyStep<Vec<u8>, String>)
    ensures
        res@ == copy_of(id@, raw@, mime@, media::clip_text_of(raw@)),
        valid_utf8(raw@) ==> res@ == copy_of(
            id@,
            raw@,
            mime@,
            text::without_line_ends(decode_utf8(raw@)),
        ),
{
    copy_step(id, raw, mime, media::clip_text(raw).as_str())
}

/// The step once it is known whether there is a file at `path`.
pub fn copy_found(raw: &[u8], path: &str, exists: bool) -> (res: CopyStep<Vec<u8>, String>)
    ensures
        res@ == copy_found_of(raw@, path@, exists),
{
    if exists {
        link_step(url::file_url(path).as_str(), "Copied File Path", path)
    } else {
        raw_step(raw, None)
    }
}

/// One thing that is done when an entry is copied.
#[derive(Debug)]
pub enum CopyAction<B, T> {
    /// Put `payload` on the clipboard, under the type `mime` if there is one.
    Offer { payload: B, mime: Option<T> },
    /// Show a message.
    Tell(content::Notice<T>),
    /// Delete the entry with this id from the history.
    Delete(T),
}

impl View for CopyAction<Vec<u8>, String> {
    type V = CopyAction<Seq<u8>, Seq<char>>;

    open spec fn view(&self) -> CopyAction<Seq<u8>, Seq<char>> {
        match *self {
            CopyAction::Offer { payload, mime } => CopyAction::Offer {
                payload: payload@,
                mime: text::text_in(mime),
            },
            CopyAction::Tell(notice) => CopyAction::Tell(notice@),
            CopyAction::Delete(id) => CopyAction::Delete(id@),
        }
    }
}

/// What is done for the entry `id`, in order, once it is known what to copy: the offer, if there
/// is one, its message, if there is one, and the deletion of the entry.
pub open spec fn actions_of(id: Seq<char>, step: CopyStep<Seq<u8>, Seq<char>>) -> Seq<
    CopyAction<Seq<u8>, Seq<char>>,
> {
    let delete = CopyAction::Delete(id);
    match step {
        CopyStep::Offer { payload, mime, notice: Some(notice) } => seq![
            CopyAction::Offer { payload, mime },
            CopyAction::Tell(notice),
            delete,
        ],
        CopyStep::Offer { payload, mime, notice: None } => seq![
            CopyAction::Offer { payload, mime },
            delete,
        ],
        _ => seq![delete],
    }
}

/// What a list of actions holds.
pub open spec fn actions_in(actions: Seq<CopyAction<Vec<u8>, String>>) -> Seq<
    CopyAction<Seq<u8>, Seq<char>>,
> {
    actions.map_values(|a: CopyAction<Vec<u8>, String>| a@)
}

/// What is done for the entry `id`, in order, once it is known what to copy.
pub fn copy_actions(id: &str, step: CopyStep<Vec<u8>, String>) -> (res: Vec<
    CopyAction<Vec<u8>, String>,
>)
    requires
        !(step is AskExists),
    ensures
        actions_in(res@) == actions_of(id@, step@),
{
    let ghost done = step@;
    let mut actions: Vec<CopyAction<Vec<u8>, String>> = Vec::new();
    if let CopyStep::Offer { payload, mime, notice } = step {
        actions.push(CopyAction::Offer { payload, mime });
        if let Some(notice) = notice {
            actions.push(CopyAction::Tell(notice));
        }
    }
    actions.push(CopyAction::Delete(id.to_owned()));
    assert(actions_in(actions@) =~= actions_of(id@, done));
    actions
}

/// The arguments of `wl-copy` for an offer of the type `mime`.
pub fn wl_copy(mime: Option<&str>) -> (res: Vec<String>)
    ensures
        text::texts(res@) == match mime {
            Some(mime) => seq!["--type"@, mime@],
            None => Seq::<Seq<char>>::empty(),
        },
{
    let mut args: Vec<String> = Vec::new();
    if let Some(mime) = mime {
        args.push(String::from_str("--type"));
        args.push(mime.to_owned());
    }
    assert(text::texts(args@) =~= match mime {
        Some(mime) => seq!["--type"@, mime@],
        None => Seq::<Seq<char>>::empty(),
    });
    args
}

/// Copying the URL of a path, as it was copied for that path, offers the same URL again.
pub proof fn copied_url_copies_itself(
    id: Seq<char>,
    raw: Seq<u8>,
    mime: Seq<char>,
    path: Seq<char>,
)
    requires
        !media::is_image(mime),
    ensures
        copy_of(id, raw, mime, url::url_of(path)) == offer_link(
            url::url_of(path),
            "Copied File Link"@,
            url::url_of(path),
        ),
        copy_of(id, raw, mime, url::url_of(path))->payload == copy_found_of(
            raw,
            path,
            true,
        )->payload,
{
    content::url_of_path_is_url(path, mime);
}

/// Whatever is copied, the entry is deleted once, after all else, and at most one thing is put
/// on the clipboard, before all else.
pub proof fn copy_ends_in_deletion(id: Seq<char>, step: CopyStep<Seq<u8>, Seq<char>>)
    ensures
        actions_of(id, step).len() > 0,
        actions_of(id, step).last() == CopyAction::<Seq<u8>, Seq<char>>::Delete(id),
        forall|i: int|
            0 <= i < actions_of(id, step).len() - 1 ==> !((#[trigger] actions_of(id, step)[i]) is Delete),
        forall|i: int|
            0 < i < actions_of(id, step).len() ==> !((#[trigger] actions_of(id, step)[i]) is Offer),
{
}

/// What `step` puts on the clipboard, if anything, has no type, or is a list of URIs.
pub open spec fn offered_type(step: CopyStep<Seq<u8>, Seq<char>>) -> bool {
    step matches CopyStep::Offer { mime, .. } ==> mime is None || mime == Some("text/uri-list"@)
}

/// Nothing is put on the clipboard under another type than a list of URIs.
pub proof fn offers_are_plain_or_uris(
    id: Seq<char>,
    raw: Seq<u8>,
    mime: Seq<char>,
    text: Seq<char>,
    exists: bool,
)
    ensures
        offered_type(copy_of(id, raw, mime, text)),
        offered_type(copy_found_of(raw, text, exists)),
{
}

/// A picture of whatever type is put on the clipboard as its bytes, and told by the id of the
/// entry.
pub proof fn pictures_are_copied(id: Seq<char>, raw: Seq<u8>, s: Seq<char>, text: Seq<char>)
    ensures
        copy_of(id, raw, "image/"@ + s, text) == (CopyStep::Offer {
            payload: raw,
            mime: None,
            notice: Some(content::Notice { title: "Copied Image"@, body: id }),
        }),
{
    media::pictures_by_type(s, s);
}

/// HTML with a picture file in it is copied as the URL of that file; nothing is copied where
/// the file has no name.
pub proof fn html_pictures_are_copied(id: Seq<char>, raw: Seq<u8>, text: Seq<char>)
    requires
        text::has_text(text, "<img src=\"file://"@),
    ensures
        content::html_image(text) matches Some(path) ==> copy_of(id, raw, "text/html"@, text) == (
        CopyStep::Offer {
            payload: encode_utf8("file://"@ + url::encoded_path(path)),
            mime: Some("text/uri-list"@),
            notice: Some(content::Notice { title: "Copied QQ Link"@, body: path }),
        }),
        content::html_image(text) is None ==> copy_of(id, raw, "text/html"@, text) is Nothing,
{
    lemma_html_is_no_image();
}

/// The type of HTML is not that of a picture.
pub proof fn lemma_html_is_no_image()
    ensures
        !media::is_image("text/html"@),
{
    reveal_strlit("text/html");
    reveal_strlit("image/");
    if media::is_image("text/html"@) {
        assert("text/html"@.subrange(0, 6)[0] == "image/"@[0]);
    }
}

/// The note of QQ for a video is copied as the URL of the video; nothing is copied where it
/// names none.
pub proof fn notes_are_copied(id: Seq<char>, raw: Seq<u8>, mime: Seq<char>, text: Seq<char>)
    requires
        !text::begins_with(mime, "image/"@),
        !(mime == "text/html"@ && text::has_text(text, "<img src=\"file://"@)),
        text::has_text(text, "QQRichEditFormat"@),
        text::has_text(text, "EditElement type=\"7\""@),
    ensures
        content::qq_video_file(text) matches Some(path) ==> copy_of(id, raw, mime, text) == (
        CopyStep::Offer {
            payload: encode_utf8("file://"@ + url::encoded_path(path)),
            mime: Some("text/uri-list"@),
            notice: Some(content::Notice { title: "Copied QQ Video"@, body: path }),
        }),
        content::qq_video_file(text) is None ==> copy_of(id, raw, mime, text) is Nothing,
{
}

/// A `file://` URL is copied as it is, as a list of URIs.
pub proof fn urls_are_copied(
    id: Seq<char>,
    raw: Seq<u8>,
    mime: Seq<char>,
    t: Seq<char>,
    text: Seq<char>,
)
    requires
        text == "file://"@ + t,
        !text::begins_with(mime, "image/"@),
        !(mime == "text/html"@ && text::has_text(text, "<img src=\"file://"@)),
        !(text::has_text(text, "QQRichEditFormat"@) && text::has_text(
            text,
            "EditElement type=\"7\""@,
        )),
    ensures
        copy_of(id, raw, mime, text) == (CopyStep::Offer {
            payload: encode_utf8(text),
            mime: Some("text/uri-list"@),
            notice: Some(content::Notice { title: "Copied File Link"@, body: text }),
        }),
{
    url::urls_name_paths(t);
}

/// An absolute path is copied as the URL of the file, where there is one, and as it is where
/// there is none.
pub proof fn paths_are_copied(
    id: Seq<char>,
    raw: Seq<u8>,
    mime: Seq<char>,
    t: Seq<char>,
    text: Seq<char>,
)
    requires
        text == seq!['/'] + t,
        !text::begins_with(mime, "image/"@),
        !(mime == "text/html"@ && text::has_text(text, "<img src=\"file://"@)),
        !(text::has_text(text, "QQRichEditFormat"@) && text::has_text(
            text,
            "EditElement type=\"7\""@,
        )),
    ensures
        copy_of(id, raw, mime, text) == CopyStep::<Seq<u8>, Seq<char>>::AskExists(text),
        copy_found_of(raw, text, true) == (CopyStep::Offer {
            payload: encode_utf8("file://"@ + url::encoded_path(text)),
            mime: Some("text/uri-list"@),
            notice: Some(content::Notice { title: "Copied File Path"@, body: text }),
        }),
        copy_found_of(raw, text, false) == (CopyStep::<Seq<u8>, Seq<char>>::Offer {
            payload: raw,
            mime: None,
            notice: None,
        }),
{
    content::paths_begin_with_slash(text);
    content::url_is_no_path(text);
}

/// Copying loses no content: what is neither a `file://` URL nor an absolute path, and does not
/// hold the marks of a note or of a picture file in HTML, is put on the clipboard as its bytes,
/// whatever its MIME type, and without a message if it is no picture.
pub proof fn other_content_is_copied(
    id: Seq<char>,
    raw: Seq<u8>,
    mime: Seq<char>,
    text: Seq<char>,
)
    requires
        !(exists|t: Seq<char>| text == #[trigger] ("file://"@ + t)),
        text.len() == 0 || text[0] != '/',
        !(text::has_text(text, "QQRichEditFormat"@) && text::has_text(
            text,
            "EditElement type=\"7\""@,
        )),
        !(mime == "text/html"@ && text::has_text(text, "<img src=\"file://"@)),
    ensures
        copy_of(id, raw, mime, text) matches CopyStep::Offer { payload, mime: None, .. } && payload
            == raw,
        !text::begins_with(mime, "image/"@) ==> copy_of(id, raw, mime, text) == (CopyStep::<
            Seq<u8>,
            Seq<char>,
        >::Offer { payload: raw, mime: None, notice: None }),
{
    url::urls_name_paths(text);
    content::paths_begin_with_slash(text);
}

/// What is to be put on the clipboard is put there, first, as it is and under its type; its
/// message, if there is one, is shown next; and nothing else is done but the deletion.
pub proof fn offers_are_done(
    id: Seq<char>,
    payload: Seq<u8>,
    mime: Option<Seq<char>>,
    told: content::Notice<Seq<char>>,
)
    ensures
        actions_of(id, CopyStep::Offer { payload, mime, notice: Some(told) }) == seq![
            CopyAction::Offer { payload, mime },
            CopyAction::Tell(told),
            CopyAction::Delete(id),
        ],
        actions_of(id, CopyStep::Offer { payload, mime, notice: None }) == seq![
            CopyAction::Offer { payload, mime },
            CopyAction::Delete(id),
        ],
        actions_of(id, CopyStep::Nothing) == seq![
            CopyAction::<Seq<u8>, Seq<char>>::Delete(id),
        ],
{
}

/// A step and an action are seen as what they hold.
pub proof fn copy_is_seen(
    step: CopyStep<Vec<u8>, String>,
    action: CopyAction<Vec<u8>, String>,
    actions: Seq<CopyAction<Vec<u8>, String>>,
)
    ensures
        step is Nothing <==> step@ is Nothing,
        step is AskExists <==> step@ is AskExists,
        step matches CopyStep::AskExists(path) ==> step@ == CopyStep::<
            Seq<u8>,
            Seq<char>,
        >::AskExists(path@),
        step matches CopyStep::Offer { payload, mime, notice } ==> (step@ matches CopyStep::Offer {
            payload: p,
            mime: m,
            notice: n,
        } && p == payload@ && (mime is Some <==> m is Some) && (mime is Some ==> m->0 == mime->0@)
            && (notice is Some <==> n is Some) && (notice is Some ==> n->0 == notice->0@)),
        action matches CopyAction::Offer { payload, mime } ==> (action@ matches CopyAction::Offer {
            payload: p,
            mime: m,
        } && p == payload@ && (mime is Some <==> m is Some) && (mime is Some ==> m->0
            == mime->0@)),
        action matches CopyAction::Tell(notice) ==> action@ == CopyAction::<
            Seq<u8>,
            Seq<char>,
        >::Tell(notice@),
        action matches CopyAction::Delete(id) ==> action@ == CopyAction::<
            Seq<u8>,
            Seq<char>,
        >::Delete(id@),
        actions_in(actions).len() == actions.len(),
        forall|i: int| 0 <= i < actions.len() ==> #[trigger] actions_in(actions)[i] == actions[i]@,
{
}

/// A path with a file is copied as the URL of the file, and one without as the bytes of the
/// entry.
pub proof fn found_paths_are_copied(raw: Seq<u8>, path: Seq<char>)
    ensures
        copy_found_of(raw, path, true) == (CopyStep::Offer {
            payload: encode_utf8("file://"@ + url::encoded_path(path)),
            mime: Some("text/uri-list"@),
            notice: Some(content::Notice { title: "Copied File Path"@, body: path }),
        }),
        copy_found_of(raw, path, false) == (CopyStep::<Seq<u8>, Seq<char>>::Offer {
            payload: raw,
            mime: None,
            notice: None,
        }),
{
}

} // verus!
