//! What kind of content an entry holds, and the names under which pictures are cached.
use crate::outside;
use crate::text;
use vstd::prelude::*;
use vstd::slice::*;
use vstd::string::*;
use vstd::utf8::*;

verus! {

/// A name, given in lower case, that ends in the extension of a video file.
pub open spec fn video_name(lower: Seq<char>) -> bool {
    ||| text::ends_in(lower, ".mp4"@)
    ||| text::ends_in(lower, ".mkv"@)
    ||| text::ends_in(lower, ".webm"@)
    ||| text::ends_in(lower, ".avi"@)
    ||| text::ends_in(lower, ".mov"@)
    ||| text::ends_in(lower, ".flv"@)
    ||| text::ends_in(lower, ".wmv"@)
    ||| text::ends_in(lower, ".ts"@)
}

/// Whether a name, given in lower case, ends in the extension of a video file.
pub fn is_video_name(lower: &str) -> (res: bool)
    ensures
        res == video_name(lower@),
{
    let cs = text::chars_of(lower);
    let s = cs.as_slice();
    text::ends_with(s, ".mp4") || text::ends_with(s, ".mkv") || text::ends_with(s, ".webm")
        || text::ends_with(s, ".avi") || text::ends_with(s, ".mov") || text::ends_with(s, ".flv")
        || text::ends_with(s, ".wmv") || text::ends_with(s, ".ts")
}

/// All characters of `s`, or all of those behind its last dot, are ASCII.
pub open spec fn ascii_named(s: Seq<char>) -> bool {
    is_ascii_chars(s) || is_ascii_chars(text::after_last(s, '.'))
}

/// `end` is an extension with the dot before it.
pub open spec fn dotted(end: Seq<char>) -> bool {
    end.len() > 0 && end[0] == '.' && forall|i: int| 0 < i < end.len() ==> #[trigger] end[i] != '.'
}

/// A text does not end in two extensions.
proof fn lemma_one_extension(s: Seq<char>, a: Seq<char>, b: Seq<char>)
    requires
        dotted(a),
        dotted(b),
        text::ends_in(s, a),
        text::ends_in(s, b),
    ensures
        a == b,
{
    let n = s.len() as int;
    let (x, y) = (s.subrange(n - a.len(), n), s.subrange(n - b.len(), n));
    if a.len() < b.len() {
        assert(y[b.len() - a.len()] == x[0]);
    } else if b.len() < a.len() {
        assert(x[a.len() - b.len()] == y[0]);
    }
}

/// Of a text whose extension is ASCII, the ASCII letters alone decide on the extension of its
/// lower-case form.
pub proof fn lemma_extension_agrees(s: Seq<char>, lower: Seq<char>, end: Seq<char>)
    requires
        outside::lower_form(s, lower),
        ascii_named(s),
        dotted(end),
    ensures
        text::ends_in(lower, end) == text::ends_in(outside::ascii_lowercase(s), end),
{
    let low = outside::ascii_lowercase(s);
    if !is_ascii_chars(s) {
        text::lemma_after_last_is(s, '.');
        let d = s.len() - text::after_last(s, '.').len() - 1;
        if d < 0 {
            assert(s.skip(0) =~= s);
        } else {
            let tail = s.skip(d);
            let last = outside::ascii_lowercase(tail);
            assert forall|i: int| 0 <= i < tail.len() implies '\0' <= #[trigger] tail[i]
                <= '\u{7f}' by {
                if i > 0 {
                    assert(tail[i] == text::after_last(s, '.')[i - 1]);
                }
            }
            assert forall|i: int| 0 < i < last.len() implies #[trigger] last[i] != '.' by {
                assert(tail[i] == text::after_last(s, '.')[i - 1]);
            }
            assert(last[0] == '.');
            assert(text::ends_in(lower, last));
            assert(low.subrange(d, low.len() as int) =~= last);
            if text::ends_in(lower, end) {
                lemma_one_extension(lower, last, end);
            }
            if text::ends_in(low, end) {
                lemma_one_extension(low, last, end);
            }
        }
    }
}

/// Of a text whose extension is ASCII, the ASCII letters alone decide whether it is the name of
/// a video.
proof fn lemma_video_agrees(s: Seq<char>, lower: Seq<char>)
    requires
        outside::lower_form(s, lower),
        ascii_named(s),
    ensures
        video_name(lower) == video_name(outside::ascii_lowercase(s)),
{
    reveal_strlit(".mp4");
    reveal_strlit(".mkv");
    reveal_strlit(".webm");
    reveal_strlit(".avi");
    reveal_strlit(".mov");
    reveal_strlit(".flv");
    reveal_strlit(".wmv");
    reveal_strlit(".ts");
    lemma_extension_agrees(s, lower, ".mp4"@);
    lemma_extension_agrees(s, lower, ".mkv"@);
    lemma_extension_agrees(s, lower, ".webm"@);
    lemma_extension_agrees(s, lower, ".avi"@);
    lemma_extension_agrees(s, lower, ".mov"@);
    lemma_extension_agrees(s, lower, ".flv"@);
    lemma_extension_agrees(s, lower, ".wmv"@);
    lemma_extension_agrees(s, lower, ".ts"@);
}

/// Whether `s` ends in the extension of a video file, in capitals or small letters.
pub fn is_video_ext(s: &str) -> (res: bool)
    ensures
        res == video_name(outside::lowercase(s@)),
        ascii_named(s@) ==> res == video_name(outside::ascii_lowercase(s@)),
{
    let lower = s.to_lowercase();
    proof {
        if ascii_named(s@) {
            lemma_video_agrees(s@, lower@);
        }
    }
    is_video_name(lower.as_str())
}

/// The text of an entry, as it is decided upon: without line ends behind it.
pub open spec fn clip_text_of(raw: Seq<u8>) -> Seq<char> {
    text::without_line_ends(outside::lossy_text(raw))
}

/// The text that the bytes of an entry hold, without line ends behind it.
pub fn clip_text(raw: &[u8]) -> (res: String)
    ensures
        res@ == clip_text_of(raw@),
        valid_utf8(raw@) ==> res@ == text::without_line_ends(decode_utf8(raw@)),
        forall|k: int| #[trigger]
            outside::line_ends_from(raw@, k) ==> res@ == clip_text_of(raw@.take(k)),
{
    let read = outside::read_lossy(raw);
    proof {
        assert forall|k: int| #[trigger] outside::line_ends_from(raw@, k) implies clip_text_of(raw@)
            == clip_text_of(raw@.take(k)) by {
            let ends = outside::ascii_text(raw@.skip(k));
            assert forall|i: int| 0 <= i < ends.len() implies text::line_end(#[trigger] ends[i]) by {
                assert(raw@[k + i] == 0x0A || raw@[k + i] == 0x0D);
            }
            text::line_ends_are_dropped(outside::lossy_text(raw@.take(k)), ends);
        }
    }
    text::trim_line_ends(read.as_str())
}

/// What a program has printed, without white space around it.
pub fn output_text(stdout: &[u8]) -> (res: String)
    ensures
        res@ == text::trimmed(outside::lossy_text(stdout@)),
        valid_utf8(stdout@) ==> res@ == text::trimmed(decode_utf8(stdout@)),
{
    text::trim(outside::read_lossy(stdout).as_str())
}

/// The number in the four bytes from `i` on, the lowest byte first.
fn read_le32(bytes: &[u8], i: usize) -> (res: u64)
    requires
        i + 4 <= bytes@.len(),
    ensures
        res == outside::le32(bytes@, i as int),
        res <= u32::MAX,
{
    bytes[i] as u64 + 0x100 * (bytes[i + 1] as u64) + 0x1_0000 * (bytes[i + 2] as u64) + 0x100_0000
        * (bytes[i + 3] as u64)
}

/// Where the skippable frame at `i` ends, if one begins there: counted from `i` on.
fn frame_length(bytes: &[u8], i: usize) -> (res: Option<u64>)
    requires
        i <= bytes@.len(),
    ensures
        res is Some <==> outside::frame_first(bytes@.skip(i as int)),
        res matches Some(len) ==> len == outside::frame_end(bytes@.skip(i as int)) && 8 <= len
            <= 8 + u32::MAX,
{
    if bytes.len() - i >= 8 && 0x50 <= bytes[i] && bytes[i] <= 0x5F && bytes[i + 1] == 0x2A
        && bytes[i + 2] == 0x4D && bytes[i + 3] == 0x18 {
        let ghost rest = bytes@.skip(i as int);
        let size: u64 = read_le32(bytes, i + 4);
        assert(outside::le32(rest, 4) == size);
        Some(8 + size)
    } else {
        None
    }
}

/// Whether the end of each skippable frame at the front of `bytes` can be counted.
fn has_counted_frames(bytes: &[u8]) -> (res: bool)
    ensures
        res == outside::frames_counted(bytes@),
{
    let mut i: usize = 0;
    assert(bytes@.skip(0) =~= bytes@);
    loop
        invariant
            i <= bytes@.len(),
            outside::frames_counted(bytes@) == outside::frames_counted(bytes@.skip(i as int)),
        decreases bytes@.len() - i,
    {
        match frame_length(bytes, i) {
            Some(len) => {
                if len > usize::MAX as u64 {
                    return false;
                }
                let end: usize = len as usize;
                if end > bytes.len() - i {
                    return true;
                }
                assert(bytes@.skip(i as int).skip(end as int) =~= bytes@.skip(i + end));
                i = i + end;
            },
            None => {
                return true;
            },
        }
    }
}

/// Whether the magic numbers in `bytes` can be looked up.
pub fn is_inferable(bytes: &[u8]) -> (res: bool)
    ensures
        res == outside::inferable(bytes@),
{
    if !has_counted_frames(bytes) {
        return false;
    }
    if bytes.len() >= 22 && bytes[0] == 0x50 && bytes[1] == 0x4B && bytes[2] == 0x03 && bytes[3]
        == 0x04 {
        let size: u64 = read_le32(bytes, 18);
        return size + 49 > u32::MAX as u64 || size + 6049 <= usize::MAX as u64;
    }
    true
}

/// `bytes` without the skippable frames behind the first ones; nothing where there are none.
fn without_surplus(bytes: &[u8]) -> (res: Option<Vec<u8>>)
    requires
        outside::frames_counted(bytes@),
    ensures
        outside::cut_to(bytes@, outside::KEPT_FRAMES as nat) == match res {
            Some(cut) => cut@,
            None => bytes@,
        },
{
    let mut left: usize = outside::KEPT_FRAMES;
    let mut kept: usize = 0;
    let mut i: usize = 0;
    assert(bytes@.skip(0) =~= bytes@);
    assert(bytes@.take(0) + outside::first_frames(bytes@, left as nat) =~= outside::first_frames(
        bytes@,
        left as nat,
    ));
    loop
        invariant
            kept <= i <= bytes@.len(),
            left > 0 ==> kept == i,
            outside::frames_counted(bytes@.skip(i as int)),
            outside::first_frames(bytes@, outside::KEPT_FRAMES as nat) == bytes@.take(kept as int)
                + outside::first_frames(bytes@.skip(i as int), left as nat),
            outside::past_frames(bytes@) == outside::past_frames(bytes@.skip(i as int)),
        ensures
            !outside::whole_frame_first(bytes@.skip(i as int)),
        decreases bytes@.len() - i,
    {
        let end: usize = match frame_length(bytes, i) {
            Some(len) => len as usize,
            None => {
                break;
            },
        };
        if end > bytes.len() - i {
            break;
        }
        let ghost rest = bytes@.skip(i as int);
        assert(rest.skip(end as int) =~= bytes@.skip(i + end));
        if left > 0 {
            proof {
                let more = outside::first_frames(rest.skip(end as int), (left - 1) as nat);
                assert(bytes@.take(kept as int) + (rest.take(end as int) + more) =~= bytes@.take(
                    i + end,
                ) + more);
            }
            left = left - 1;
            kept = i + end;
        }
        i = i + end;
    }
    assert(bytes@.take(kept as int) + Seq::<u8>::empty() =~= bytes@.take(kept as int));
    if kept == i {
        assert(bytes@.take(i as int) + bytes@.skip(i as int) =~= bytes@);
        return None;
    }
    let mut cut: Vec<u8> = slice_to_vec(slice_subrange(bytes, 0, kept));
    let mut tail: Vec<u8> = slice_to_vec(slice_subrange(bytes, i, bytes.len()));
    assert(bytes@.subrange(0, kept as int) =~= bytes@.take(kept as int));
    assert(bytes@.subrange(i as int, bytes@.len() as int) =~= bytes@.skip(i as int));
    cut.append(&mut tail);
    Some(cut)
}

/// What is left of bytes without surplus frames can be looked up.
proof fn lemma_cut(bytes: Seq<u8>, n: nat)
    requires
        outside::frames_counted(bytes),
    ensures
        outside::frames_counted(outside::cut_to(bytes, n)),
        outside::frames_within(outside::cut_to(bytes, n), n),
        outside::whole_frame_first(bytes) && n > 0 ==> outside::whole_frame_first(
            outside::cut_to(bytes, n),
        ),
        !outside::whole_frame_first(bytes) ==> outside::cut_to(bytes, n) == bytes,
    decreases bytes.len(),
{
    let cut = outside::cut_to(bytes, n);
    if !outside::whole_frame_first(bytes) {
        assert(cut =~= bytes);
    } else {
        let end = outside::frame_end(bytes) as int;
        let rest = bytes.skip(end);
        if n == 0 {
            lemma_cut(rest, 0);
            assert(cut =~= outside::cut_to(rest, 0));
        } else {
            lemma_cut(rest, (n - 1) as nat);
            assert(cut.skip(end) =~= outside::cut_to(rest, (n - 1) as nat));
            assert(forall|k: int| 0 <= k < end ==> cut[k] == bytes[k]);
        }
    }
}

/// The MIME type of an entry by the magic numbers in its bytes. Where there is none, the
/// `file` program is to be asked: `chosen_mime` takes both answers.
pub fn get_mime(bytes: &[u8]) -> (res: Option<String>)
    requires
        outside::inferable(bytes@),
    ensures
        text::text_in(res) == outside::magic_mime(bytes@),
{
    proof {
        lemma_cut(bytes@, outside::KEPT_FRAMES as nat);
    }
    match without_surplus(bytes) {
        Some(cut) => outside::infer_mime(cut.as_slice()),
        None => outside::infer_mime(bytes),
    }
}

/// The MIME type that the `file` program has printed: what stands in `stdout` without white
/// space around it, and the empty text where the program could not be run.
pub fn file_mime(stdout: Option<&[u8]>) -> (res: String)
    ensures
        res@ == match stdout {
            Some(bytes) => text::trimmed(outside::lossy_text(bytes@)),
            None => Seq::empty(),
        },
        stdout matches Some(bytes) ==> valid_utf8(bytes@) ==> res@ == text::trimmed(
            decode_utf8(bytes@),
        ),
{
    match stdout {
        Some(bytes) => output_text(bytes),
        None => String::new(),
    }
}

/// The MIME type of a content: what its magic numbers tell, where they tell one, else what the
/// `file` program has printed, if it could be run.
pub fn chosen_mime(magic: Option<String>, stdout: Option<&[u8]>) -> (res: String)
    ensures
        magic matches Some(mime) ==> res@ == mime@,
        magic is None ==> res@ == match stdout {
            Some(bytes) => text::trimmed(outside::lossy_text(bytes@)),
            None => Seq::empty(),
        },
        magic is None ==> (stdout matches Some(bytes) ==> valid_utf8(bytes@) ==> res@
            == text::trimmed(decode_utf8(bytes@))),
{
    match magic {
        Some(mime) => mime,
        None => file_mime(stdout),
    }
}

/// `mime` is the type of a picture.
pub open spec fn is_image(mime: Seq<char>) -> bool {
    text::begins_with(mime, "image/"@)
}

/// Whether `mime` is the type of a picture.
pub fn is_image_mime(mime: &str) -> (res: bool)
    ensures
        res == is_image(mime@),
{
    text::starts_with(text::chars_of(mime).as_slice(), "image/")
}

/// The name of a file in the cache: a digest in hexadecimal, and an extension.
pub open spec fn cache_name_of(digest: u128, ext: Seq<char>) -> Seq<char> {
    text::numeral(digest as nat, 16) + "."@ + ext
}

/// The name of the file in the cache for a digest and an extension.
pub fn cache_name(digest: u128, ext: &str) -> (res: String)
    ensures
        res@ == cache_name_of(digest, ext@),
{
    let mut name = text::hexadecimal(digest);
    name.append(".");
    name.append(ext);
    name
}

/// The name under which the picture `raw` of type `mime` is cached.
pub open spec fn image_name_of(raw: Seq<u8>, mime: Seq<char>) -> Seq<char> {
    cache_name_of(outside::xxh3(raw), text::after_last(mime, '/'))
}

/// The name under which the picture `raw` of type `mime` is cached: the hash of the bytes,
/// with what stands behind the last slash of the type for its extension.
pub fn image_name(raw: &[u8], mime: &str) -> (res: String)
    ensures
        res@ == image_name_of(raw@, mime@),
{
    let ext = text::text_after_last(text::chars_of(mime).as_slice(), '/');
    cache_name(outside::xxh3_digest(raw), ext.as_str())
}

/// What is to be written to the file in the cache for the picture `raw`, given whether there is
/// such a file: its bytes, or nothing where they are there.
pub fn picture_to_store(raw: &[u8], exists: bool) -> (res: Option<&[u8]>)
    ensures
        res is None <==> exists,
        res matches Some(bytes) ==> bytes@ == raw@,
{
    if exists {
        None
    } else {
        Some(raw)
    }
}

/// The name under which the thumbnail of the video at `path` is cached: the hash of the path,
/// as a PNG file.
pub fn thumbnail_name(path: &str) -> (res: String)
    ensures
        res@ == cache_name_of(outside::xxh3(encode_utf8(path@)), "png"@),
{
    cache_name(outside::xxh3_digest(path.as_bytes()), "png")
}

/// Two names that differ in the case of their ASCII letters alone are both the names of videos,
/// or neither is.
pub proof fn case_is_ignored(a: Seq<char>, b: Seq<char>)
    requires
        a.len() == b.len(),
        forall|i: int|
            0 <= i < a.len() ==> outside::ascii_lower(#[trigger] a[i]) == outside::ascii_lower(b[i]),
    ensures
        video_name(outside::ascii_lowercase(a)) == video_name(outside::ascii_lowercase(b)),
        ascii_named(a) ==> ascii_named(b),
{
    assert(outside::ascii_lowercase(a) =~= outside::ascii_lowercase(b));
    assert forall|i: int| 0 <= i < a.len() && '\0' <= a[i] <= '\u{7f}' implies '\0'
        <= #[trigger] b[i] <= '\u{7f}' by {
        assert(outside::ascii_lower(a[i]) == outside::ascii_lower(b[i]));
    }
    if !is_ascii_chars(a) && ascii_named(a) {
        text::lemma_after_last_is(a, '.');
        let d = a.len() - text::after_last(a, '.').len();
        assert forall|i: int| d - 1 <= i < b.len() && i >= 0 implies (b[i] == '.') == (a[i]
            == '.') by {
            assert(outside::ascii_lower(a[i]) == outside::ascii_lower(b[i]));
        }
        assert forall|i: int| d <= i < b.len() implies b[i] != '.' by {
            assert(text::after_last(a, '.')[i - d] == a[i]);
        }
        text::lemma_after_last(b, '.', d);
        assert forall|i: int| 0 <= i < b.skip(d).len() implies '\0' <= #[trigger] b.skip(d)[i]
            <= '\u{7f}' by {
            assert(text::after_last(a, '.')[i] == a[d + i]);
        }
    }
}

/// `s` with its ASCII small letters in upper case.
pub open spec fn ascii_uppercase(s: Seq<char>) -> Seq<char> {
    s.map_values(
        |c: char|
            if 'a' <= c <= 'z' {
                (c as u32 - 32) as char
            } else {
                c
            },
    )
}

/// Writing the ASCII letters of a name in capitals, or in small letters, does not change whether
/// it is that of a video.
pub proof fn upper_and_lower_case_agree(s: Seq<char>)
    ensures
        video_name(outside::ascii_lowercase(ascii_uppercase(s))) == video_name(
            outside::ascii_lowercase(s),
        ),
        video_name(outside::ascii_lowercase(outside::ascii_lowercase(s))) == video_name(
            outside::ascii_lowercase(s),
        ),
        ascii_named(ascii_uppercase(s)) == ascii_named(s),
        ascii_named(outside::ascii_lowercase(s)) == ascii_named(s),
{
    case_is_ignored(ascii_uppercase(s), s);
    case_is_ignored(s, ascii_uppercase(s));
    case_is_ignored(outside::ascii_lowercase(s), s);
    case_is_ignored(s, outside::ascii_lowercase(s));
}

/// What stands before the name of a video, in lower case or with ASCII letters of either case,
/// never hides that it is one.
pub proof fn prefix_hides_no_video(p: Seq<char>, s: Seq<char>)
    ensures
        video_name(s) ==> video_name(p + s),
        video_name(outside::ascii_lowercase(s)) ==> video_name(outside::ascii_lowercase(p + s)),
        video_name(outside::ascii_lowercase(s)) && ascii_named(s) ==> ascii_named(p + s),
{
    lemma_video_suffix(p, s);
    if video_name(outside::ascii_lowercase(s)) && ascii_named(s) {
        lemma_video_has_dot(s);
        text::lemma_after_last_is(s, '.');
        let ext = text::after_last(s, '.');
        let d = (p + s).len() - ext.len();
        assert forall|i: int| d <= i < (p + s).len() implies (p + s)[i] != '.' by {
            assert(ext[i - d] == s[i - p.len()]);
        }
        text::lemma_after_last(p + s, '.', d);
        assert((p + s).skip(d) =~= ext);
        if is_ascii_chars(s) {
            assert forall|i: int| 0 <= i < ext.len() implies '\0' <= #[trigger] ext[i]
                <= '\u{7f}' by {
                assert(ext[i] == s[s.len() - ext.len() + i]);
            }
        }
    }
    let (a, b) = (outside::ascii_lowercase(p), outside::ascii_lowercase(s));
    lemma_video_suffix(a, b);
    assert(outside::ascii_lowercase(p + s) =~= a + b);
}

/// The name of a video holds a dot.
proof fn lemma_video_has_dot(s: Seq<char>)
    requires
        video_name(outside::ascii_lowercase(s)),
    ensures
        text::after_last(s, '.').len() < s.len(),
{
    reveal_strlit(".mp4");
    reveal_strlit(".mkv");
    reveal_strlit(".webm");
    reveal_strlit(".avi");
    reveal_strlit(".mov");
    reveal_strlit(".flv");
    reveal_strlit(".wmv");
    reveal_strlit(".ts");
    let lower = outside::ascii_lowercase(s);
    let n = lower.len() as int;
    text::lemma_after_last_is(s, '.');
    assert(n >= 5 ==> lower.subrange(n - 5, n)[0] == lower[n - 5]);
    assert(n >= 4 ==> lower.subrange(n - 4, n)[0] == lower[n - 4]);
    assert(lower.subrange(n - 3, n)[0] == lower[n - 3]);
    if text::after_last(s, '.').len() == s.len() {
        assert(text::after_last(s, '.') =~= s);
        assert(forall|i: int| 0 <= i < n ==> lower[i] != '.');
    }
}

/// A name that ends in the name of a video is one.
proof fn lemma_video_suffix(p: Seq<char>, s: Seq<char>)
    ensures
        video_name(s) ==> video_name(p + s),
{
    text::lemma_ends_behind(p, s, ".mp4"@);
    text::lemma_ends_behind(p, s, ".mkv"@);
    text::lemma_ends_behind(p, s, ".webm"@);
    text::lemma_ends_behind(p, s, ".avi"@);
    text::lemma_ends_behind(p, s, ".mov"@);
    text::lemma_ends_behind(p, s, ".flv"@);
    text::lemma_ends_behind(p, s, ".wmv"@);
    text::lemma_ends_behind(p, s, ".ts"@);
}

/// Two files in the cache have the same name only if their digests and their extensions are
/// the same.
pub proof fn cache_names_differ(d1: u128, ext1: Seq<char>, d2: u128, ext2: Seq<char>)
    ensures
        cache_name_of(d1, ext1) == cache_name_of(d2, ext2) ==> d1 == d2 && ext1 == ext2,
{
    let (a, b) = (cache_name_of(d1, ext1), cache_name_of(d2, ext2));
    if a == b {
        reveal_strlit(".");
        let (m, n) = (text::numeral(d1 as nat, 16), text::numeral(d2 as nat, 16));
        text::lemma_numeral_digits(d1 as nat, 16);
        text::lemma_numeral_digits(d2 as nat, 16);
        assert(forall|j: int| 0 <= j < m.len() ==> a[j] == m[j]);
        assert(forall|j: int| 0 <= j < n.len() ==> b[j] == n[j]);
        text::lemma_first_index_is(a, '.', m.len() as int);
        text::lemma_first_index_is(b, '.', n.len() as int);
        assert(m =~= a.take(m.len() as int));
        assert(n =~= b.take(n.len() as int));
        text::lemma_numeral_injective(d1 as nat, d2 as nat, 16);
        assert(ext1 =~= a.skip(m.len() as int + 1));
        assert(ext2 =~= b.skip(n.len() as int + 1));
    }
}

/// A text ends in an extension exactly if that is what stands behind its last dot.
pub proof fn lemma_ends_in_extension(p: Seq<char>, e: Seq<char>, end: Seq<char>)
    requires
        !e.contains('.'),
        !end.contains('.'),
    ensures
        text::ends_in(p + "."@ + e, "."@ + end) <==> e == end,
{
    reveal_strlit(".");
    let s = p + "."@ + e;
    let (a, b) = ("."@ + e, "."@ + end);
    assert(forall|j: int| 0 <= j < e.len() ==> e.contains(#[trigger] e[j]));
    assert(forall|j: int| 0 <= j < end.len() ==> end.contains(#[trigger] end[j]));
    assert(s.subrange(p.len() as int, s.len() as int) =~= a);
    assert(text::ends_in(s, a));
    if text::ends_in(s, b) {
        lemma_one_extension(s, a, b);
        assert(a.drop_first() =~= e);
        assert(b.drop_first() =~= end);
    }
}

/// A text without a dot ends in no extension.
pub proof fn lemma_no_extension(s: Seq<char>, end: Seq<char>)
    requires
        !s.contains('.'),
    ensures
        !text::ends_in(s, "."@ + end),
{
    reveal_strlit(".");
    if text::ends_in(s, "."@ + end) {
        let i = s.len() - end.len() - 1;
        assert(s.subrange(i, s.len() as int)[0] == ("."@ + end)[0]);
        assert(s[i] == '.');
    }
}

/// Which extensions are those of videos: of a name in lower case, what stands behind its last
/// dot alone decides, and only eight extensions count. A name without a dot is none.
pub proof fn video_extensions(p: Seq<char>, e: Seq<char>)
    requires
        !e.contains('.'),
    ensures
        video_name(p + "."@ + e) <==> (e == "mp4"@ || e == "mkv"@ || e == "webm"@ || e == "avi"@ || e == "mov"@ || e == "flv"@ || e == "wmv"@ || e == "ts"@),
        !video_name(e),
{
    reveal_strlit(".");
    reveal_strlit(".mp4");
    reveal_strlit("mp4");
    reveal_strlit(".mkv");
    reveal_strlit("mkv");
    reveal_strlit(".webm");
    reveal_strlit("webm");
    reveal_strlit(".avi");
    reveal_strlit("avi");
    reveal_strlit(".mov");
    reveal_strlit("mov");
    reveal_strlit(".flv");
    reveal_strlit("flv");
    reveal_strlit(".wmv");
    reveal_strlit("wmv");
    reveal_strlit(".ts");
    reveal_strlit("ts");
    assert(".mp4"@ =~= "."@ + "mp4"@);
    lemma_ends_in_extension(p, e, "mp4"@);
    lemma_no_extension(e, "mp4"@);
    assert(".mkv"@ =~= "."@ + "mkv"@);
    lemma_ends_in_extension(p, e, "mkv"@);
    lemma_no_extension(e, "mkv"@);
    assert(".webm"@ =~= "."@ + "webm"@);
    lemma_ends_in_extension(p, e, "webm"@);
    lemma_no_extension(e, "webm"@);
    assert(".avi"@ =~= "."@ + "avi"@);
    lemma_ends_in_extension(p, e, "avi"@);
    lemma_no_extension(e, "avi"@);
    assert(".mov"@ =~= "."@ + "mov"@);
    lemma_ends_in_extension(p, e, "mov"@);
    lemma_no_extension(e, "mov"@);
    assert(".flv"@ =~= "."@ + "flv"@);
    lemma_ends_in_extension(p, e, "flv"@);
    lemma_no_extension(e, "flv"@);
    assert(".wmv"@ =~= "."@ + "wmv"@);
    lemma_ends_in_extension(p, e, "wmv"@);
    lemma_no_extension(e, "wmv"@);
    assert(".ts"@ =~= "."@ + "ts"@);
    lemma_ends_in_extension(p, e, "ts"@);
    lemma_no_extension(e, "ts"@);
}

/// The same of a name of any case and its lower-case form `lower`, if the extension is ASCII:
/// its letters count in either case.
pub proof fn video_extensions_of_either_case(p: Seq<char>, e: Seq<char>, lower: Seq<char>)
    requires
        !e.contains('.'),
        is_ascii_chars(e),
    ensures
        outside::lower_form(p + "."@ + e, lower) ==> (video_name(lower) <==> ({
            let ext = outside::ascii_lowercase(e);
            ext == "mp4"@ || ext == "mkv"@ || ext == "webm"@ || ext == "avi"@ || ext == "mov"@ || ext == "flv"@ || ext == "wmv"@ || ext == "ts"@
        })),
        outside::lower_form(e, lower) ==> !video_name(lower),
{
    lemma_lowered_extension(p, e);
    let low = outside::ascii_lowercase(e);
    video_extensions(outside::ascii_lowercase(p), low);
    if outside::lower_form(p + "."@ + e, lower) {
        lemma_video_agrees(p + "."@ + e, lower);
    }
    if outside::lower_form(e, lower) {
        lemma_video_agrees(e, lower);
    }
}

/// The lower-case form of a name with an ASCII extension.
pub proof fn lemma_lowered_extension(p: Seq<char>, e: Seq<char>)
    requires
        !e.contains('.'),
        is_ascii_chars(e),
    ensures
        ascii_named(p + "."@ + e),
        ascii_named(e),
        !outside::ascii_lowercase(e).contains('.'),
        outside::ascii_lowercase(p + "."@ + e) == outside::ascii_lowercase(p) + "."@
            + outside::ascii_lowercase(e),
{
    reveal_strlit(".");
    let low = outside::ascii_lowercase(e);
    assert("."@ =~= seq!['.']);
    text::last_splits(p, '.', e);
    assert(forall|j: int| 0 <= j < e.len() ==> e.contains(#[trigger] e[j]));
    assert(forall|j: int| 0 <= j < low.len() ==> #[trigger] low[j] != '.');
    assert(outside::ascii_lowercase(p + "."@ + e) =~= outside::ascii_lowercase(p) + "."@ + low);
}

/// A MIME type is that of a picture exactly if it begins with `image/`.
pub proof fn pictures_by_type(s: Seq<char>, mime: Seq<char>)
    ensures
        is_image("image/"@ + s),
        is_image(mime) <==> exists|rest: Seq<char>| mime == #[trigger] ("image/"@ + rest),
{
    text::search_is_exact(mime, "image/"@, 0);
    assert(("image/"@ + s).subrange(0, "image/"@.len() as int) =~= "image/"@);
}

/// A file in the cache is named by a digest in hexadecimal, a dot and an extension.
pub proof fn cached_files_are_named(digest: u128, ext: Seq<char>)
    ensures
        cache_name_of(digest, ext) == text::numeral(digest as nat, 16) + "."@ + ext,
{
}

/// A picture is cached under the hash of its bytes in hexadecimal, a dot, and what stands behind
/// the last slash of its type, or all of it where there is none.
pub proof fn pictures_are_named(raw: Seq<u8>, p: Seq<char>, e: Seq<char>)
    requires
        !e.contains('/'),
    ensures
        image_name_of(raw, p + "/"@ + e) == text::numeral(outside::xxh3(raw) as nat, 16) + "."@ + e,
        image_name_of(raw, e) == text::numeral(outside::xxh3(raw) as nat, 16) + "."@ + e,
{
    reveal_strlit("/");
    assert("/"@ =~= seq!['/']);
    text::last_splits(p, '/', e);
}

/// The text of an entry is what its bytes are read as, up to line feeds and carriage returns
/// behind it.
pub proof fn clip_text_is_read(raw: Seq<u8>, t: Seq<char>, ends: Seq<char>)
    requires
        t.len() > 0 ==> t.last() != '\n' && t.last() != '\r',
        forall|i: int| 0 <= i < ends.len() ==> (#[trigger] ends[i] == '\n' || ends[i] == '\r'),
    ensures
        outside::lossy_text(raw) == t + ends ==> clip_text_of(raw) == t,
{
    text::line_ends_behind_go(t, ends);
}

/// The ASCII capitals and their small letters, in the order of the alphabet; all else has no
/// case in ASCII.
pub proof fn ascii_letters(i: int, c: char, s: Seq<char>)
    requires
        0 <= i < 26,
    ensures
        outside::ascii_lower("ABCDEFGHIJKLMNOPQRSTUVWXYZ"@[i]) == "abcdefghijklmnopqrstuvwxyz"@[i],
        !(c >= 'A' && c <= 'Z') ==> outside::ascii_lower(c) == c,
        outside::ascii_lowercase(s).len() == s.len(),
        forall|k: int|
            0 <= k < s.len() ==> #[trigger] outside::ascii_lowercase(s)[k] == outside::ascii_lower(s[k]),
        outside::ascii_lowercase(ascii_uppercase(s)) == outside::ascii_lowercase(s),
        forall|k: int|
            0 <= k < s.len() ==> !('a' <= #[trigger] ascii_uppercase(s)[k] && ascii_uppercase(s)[k]
                <= 'z'),
{
    reveal_strlit("ABCDEFGHIJKLMNOPQRSTUVWXYZ");
    reveal_strlit("abcdefghijklmnopqrstuvwxyz");
    assert(outside::ascii_lowercase(ascii_uppercase(s)) =~= outside::ascii_lowercase(s));
}

/// Where a `usize` has 64 bits the magic numbers of all bytes can be looked up, and everywhere
/// those of bytes that begin neither with a skippable frame nor like a ZIP archive.
pub proof fn bytes_can_be_looked_up(bytes: Seq<u8>)
    ensures
        usize::MAX == u64::MAX ==> outside::inferable(bytes),
        bytes.len() < 4 || !(bytes[1] == 0x2A || bytes[1] == 0x4B) ==> outside::inferable(bytes),
    decreases bytes.len(),
{
    if outside::whole_frame_first(bytes) {
        bytes_can_be_looked_up(bytes.skip(outside::frame_end(bytes) as int));
    }
}

/// Line ends behind bytes are line ends from there on.
pub proof fn line_ends_stand_behind(bytes: Seq<u8>, ends: Seq<u8>)
    requires
        forall|i: int| 0 <= i < ends.len() ==> (#[trigger] ends[i] == 0x0A || ends[i] == 0x0D),
    ensures
        outside::line_ends_from(bytes + ends, bytes.len() as int),
        (bytes + ends).take(bytes.len() as int) == bytes,
{
    assert((bytes + ends).take(bytes.len() as int) =~= bytes);
    assert forall|i: int| bytes.len() <= i < (bytes + ends).len() implies (#[trigger] (bytes
        + ends)[i] == 0x0A || (bytes + ends)[i] == 0x0D) by {
        assert((bytes + ends)[i] == ends[i - bytes.len()]);
    }
}

/// A skippable frame is four bytes that mark it, of which the first is one of sixteen, its size
/// in four bytes, the lowest first, and as many bytes as that. The first frames are kept, and
/// those behind them are cut out; bytes that begin otherwise are left as they are.
pub proof fn frames_are_cut(
    x: u8,
    size: Seq<u8>,
    data: Seq<u8>,
    rest: Seq<u8>,
    n: nat,
    other: Seq<u8>,
)
    requires
        0x50 <= x <= 0x5F,
        size.len() == 4,
        data.len() == size[0] + 256 * size[1] + 65536 * size[2] + 16777216 * size[3],
    ensures
        ({
            let frame = seq![x, 0x2Au8, 0x4D, 0x18] + size + data;
            &&& outside::cut_to(frame + rest, 0) == outside::cut_to(rest, 0)
            &&& n > 0 ==> outside::cut_to(frame + rest, n) == frame + outside::cut_to(
                rest,
                (n - 1) as nat,
            )
        }),
        other.len() < 8 || !(0x50 <= other[0] <= 0x5F) || other[1] != 0x2A || other[2] != 0x4D
            || other[3] != 0x18 ==> outside::cut_to(other, n) == other,
{
    let frame = seq![x, 0x2Au8, 0x4D, 0x18] + size + data;
    let s = frame + rest;
    assert(s[4] == size[0] && s[5] == size[1] && s[6] == size[2] && s[7] == size[3]);
    assert(outside::frame_end(s) == frame.len());
    assert(s.skip(frame.len() as int) =~= rest);
    assert(s.take(frame.len() as int) =~= frame);
    assert(outside::cut_to(s, 0) =~= outside::cut_to(rest, 0));
    if n > 0 {
        assert(outside::cut_to(s, n) =~= frame + outside::cut_to(rest, (n - 1) as nat));
    }
    if !outside::whole_frame_first(other) {
        assert(outside::cut_to(other, n) =~= other);
    }
}

/// A text with its ASCII capitals in lower case has the form of its lower case.
pub proof fn ascii_lowercase_is_lower(s: Seq<char>)
    ensures
        outside::lower_form(s, outside::ascii_lowercase(s)),
{
    let lower = outside::ascii_lowercase(s);
    assert forall|k: int| 0 <= k <= s.len() && vstd::utf8::is_ascii_chars(#[trigger] s.skip(k)) implies
        text::ends_in(lower, outside::ascii_lowercase(s.skip(k))) by {
        assert(lower.subrange(k, lower.len() as int) =~= outside::ascii_lowercase(s.skip(k)));
    }
}

} // verus!
