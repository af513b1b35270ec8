//! The functions of other crates, and of the standard library, that the rest of this
//! library calls. What is said of them here is taken from their documentation and source,
//! not proved.
use crate::text;
use crate::url;
use vstd::prelude::*;
use vstd::utf8::*;

verus! {

/// Appending one character to a `String`: `String::push` adds `c` behind what is there.
pub assume_specification[ String::push ](s: &mut String, c: char)
    ensures
        final(s)@ == old(s)@.push(c),
;

/// `urlencoding::encode` percent-encodes every byte of the UTF-8 encoding of `s` except
/// ASCII letters, digits and `-`, `_`, `.`, `~`.
#[verifier::external_body]
pub(crate) fn percent_encoded(s: &str) -> (res: String)
    ensures
        res@ == url::percent_encode(encode_utf8(s@)),
{
    urlencoding::encode(s).into_owned()
}

/// `urlencoding::decode` turns each `%` with two hexadecimal digits behind it into a byte,
/// keeps every other byte, and fails if the bytes that come out are not UTF-8.
#[verifier::external_body]
pub(crate) fn percent_decoded(s: &str) -> (res: Option<String>)
    ensures
        text::text_in(res) == url::utf8_text(url::percent_decode(encode_utf8(s@))),
{
    match urlencoding::decode(s) {
        Ok(t) => Some(t.into_owned()),
        Err(_) => None,
    }
}

/// The lower-case form of a text, as Unicode defines it.
pub uninterp spec fn lowercase(s: Seq<char>) -> Seq<char>;

/// The lower-case form of an ASCII character.
pub open spec fn ascii_lower(c: char) -> char {
    if 'A' <= c <= 'Z' {
        (c as u32 + 32) as char
    } else {
        c
    }
}

/// `s` with its ASCII capitals in lower case.
pub open spec fn ascii_lowercase(s: Seq<char>) -> Seq<char> {
    s.map_values(|c: char| ascii_lower(c))
}

/// `lower` can be the lower-case form of `s`: the ASCII characters at the end of `s`, or all of
/// them where there are no others, stand at its end with the capitals `A` to `Z` in lower case.
pub open spec fn lower_form(s: Seq<char>, lower: Seq<char>) -> bool {
    &&& is_ascii_chars(s) ==> lower == ascii_lowercase(s)
    &&& forall|k: int|
        0 <= k <= s.len() && is_ascii_chars(#[trigger] s.skip(k)) ==> text::ends_in(
            lower,
            ascii_lowercase(s.skip(k)),
        )
}

/// `str::to_lowercase` gives the lower-case form of `s` by the rules of Unicode. These change
/// each character in its place, and of the ASCII characters the capitals `A` to `Z` alone, each
/// to its small letter, whatever stands before it. What other characters become is left to
/// Unicode.
pub assume_specification[ str::to_lowercase ](s: &str) -> (res: String)
    ensures
        res@ == lowercase(s@),
        lower_form(s@, res@),
;

/// The text that is read from bytes that need not be UTF-8.
pub uninterp spec fn lossy_text(bytes: Seq<u8>) -> Seq<char>;

/// All bytes from `k` on are line ends.
pub open spec fn line_ends_from(bytes: Seq<u8>, k: int) -> bool {
    0 <= k <= bytes.len() && forall|i: int|
        k <= i < bytes.len() ==> (#[trigger] bytes[i] == 0x0A || bytes[i] == 0x0D)
}

/// The characters that ASCII bytes stand for.
pub open spec fn ascii_text(bytes: Seq<u8>) -> Seq<char> {
    bytes.map_values(|b: u8| b as char)
}

/// `String::from_utf8_lossy` gives the text that `bytes` encode; where they are not UTF-8,
/// it puts replacement characters for what is not. A line end is a character by itself, never
/// a part of another, also behind bytes that are not UTF-8: line ends at the end of `bytes` are
/// passed on, and do not change what is read before them.
#[verifier::external_body]
pub(crate) fn read_lossy(bytes: &[u8]) -> (res: String)
    ensures
        res@ == lossy_text(bytes@),
        valid_utf8(bytes@) ==> res@ == decode_utf8(bytes@),
        forall|k: int| #[trigger]
            line_ends_from(bytes@, k) ==> res@ == lossy_text(bytes@.take(k)) + ascii_text(
                bytes@.skip(k),
            ),
{
    String::from_utf8_lossy(bytes).into_owned()
}

/// The MIME type that the magic numbers in `bytes` tell, if any.
pub uninterp spec fn magic_mime(bytes: Seq<u8>) -> Option<Seq<char>>;

/// The number in the four bytes from `i` on, the lowest byte first.
pub open spec fn le32(bytes: Seq<u8>, i: int) -> int {
    bytes[i] + 0x100 * bytes[i + 1] + 0x1_0000 * bytes[i + 2] + 0x100_0000 * bytes[i + 3]
}

/// `bytes` begins with the head of a skippable frame of Zstandard or LZ4.
pub open spec fn frame_first(bytes: Seq<u8>) -> bool {
    &&& bytes.len() >= 8
    &&& 0x50 <= bytes[0] <= 0x5F
    &&& bytes[1] == 0x2A
    &&& bytes[2] == 0x4D
    &&& bytes[3] == 0x18
}

/// Where the skippable frame at the front of `bytes` ends.
pub open spec fn frame_end(bytes: Seq<u8>) -> nat {
    (8 + le32(bytes, 4)) as nat
}

/// `bytes` begins with a skippable frame, and all of it is there.
pub open spec fn whole_frame_first(bytes: Seq<u8>) -> bool {
    frame_first(bytes) && frame_end(bytes) <= bytes.len()
}

/// What stands behind the skippable frames at the front of `bytes`.
pub open spec fn past_frames(bytes: Seq<u8>) -> Seq<u8>
    decreases bytes.len(),
{
    if whole_frame_first(bytes) {
        past_frames(bytes.skip(frame_end(bytes) as int))
    } else {
        bytes
    }
}

/// The first `n` skippable frames at the front of `bytes`, or all where there are less.
pub open spec fn first_frames(bytes: Seq<u8>, n: nat) -> Seq<u8>
    decreases n,
{
    if n > 0 && whole_frame_first(bytes) {
        let end = frame_end(bytes) as int;
        bytes.take(end) + first_frames(bytes.skip(end), (n - 1) as nat)
    } else {
        Seq::empty()
    }
}

/// `bytes` without the skippable frames behind the first `n`.
pub open spec fn cut_to(bytes: Seq<u8>, n: nat) -> Seq<u8> {
    first_frames(bytes, n) + past_frames(bytes)
}

/// At most `n` skippable frames stand at the front of `bytes`.
pub open spec fn frames_within(bytes: Seq<u8>, n: nat) -> bool
    decreases n,
{
    whole_frame_first(bytes) ==> n > 0 && frames_within(
        bytes.skip(frame_end(bytes) as int),
        (n - 1) as nat,
    )
}

/// The end of each skippable frame at the front of `bytes` can be counted in a `usize`.
pub open spec fn frames_counted(bytes: Seq<u8>) -> bool
    decreases bytes.len(),
{
    frame_first(bytes) ==> {
        &&& frame_end(bytes) <= usize::MAX
        &&& whole_frame_first(bytes) ==> frames_counted(bytes.skip(frame_end(bytes) as int))
    }
}

/// Where `bytes` begins like a ZIP archive: the place up to which the second file in it is
/// looked for can be counted in a `usize`.
pub open spec fn zip_counted(bytes: Seq<u8>) -> bool {
    bytes.len() >= 22 && bytes[0] == 0x50 && bytes[1] == 0x4B && bytes[2] == 0x03 && bytes[3] == 0x04
        && le32(bytes, 18) + 49 <= u32::MAX ==> le32(bytes, 18) + 49 + 6000 <= usize::MAX
}

/// The magic numbers in `bytes` can be looked up: all places that this takes can be counted in
/// a `usize`. So it is of all bytes where a `usize` has 64 bits.
pub open spec fn inferable(bytes: Seq<u8>) -> bool {
    frames_counted(bytes) && zip_counted(bytes)
}

/// How many skippable frames are left standing at the front of what is looked up.
pub const KEPT_FRAMES: usize = 64;

/// `infer::get` finds the first file type in its table whose magic numbers are in `bytes`;
/// `Type::mime_type` is the MIME type that the table gives for it. Which magic numbers stand
/// for which type is left to the table.
///
/// Skippable frames at the front are passed over by nested calls, one for each, so only a
/// bounded number of them is admitted. Where a `usize` has 32 bits, the end of such a frame,
/// and the place up to which a ZIP archive is searched, can be past what it counts; that
/// overflows, and is left out too.
///
/// Surplus frames make no difference. The tests for Zstandard and LZ4 pass over all of them, to
/// the same bytes behind them. Every other test of the table that bytes with such a frame in
/// front can meet reads the first 262 bytes at most, and the frames that are left standing are
/// 512 bytes or more. The one exception is the list of brands of HEIF and AVIF: bytes that have
/// it, and a frame in front, end that list within the first frame.
#[verifier::external_body]
pub(crate) fn infer_mime(bytes: &[u8]) -> (res: Option<String>)
    requires
        inferable(bytes@),
        frames_within(bytes@, KEPT_FRAMES as nat),
    ensures
        text::text_in(res) == magic_mime(bytes@),
        forall|all: Seq<u8>|
            inferable(all) && cut_to(all, KEPT_FRAMES as nat) == bytes@ ==> text::text_in(res)
                == #[trigger] magic_mime(all),
{
    match infer::get(bytes) {
        Some(kind) => Some(kind.mime_type().to_string()),
        None => None,
    }
}

/// The 128-bit XXH3 hash of `bytes`.
pub uninterp spec fn xxh3(bytes: Seq<u8>) -> u128;

/// `xxhash_rust::xxh3::xxh3_128` is the 128-bit XXH3 hash with the default secret.
#[verifier::external_body]
pub(crate) fn xxh3_digest(bytes: &[u8]) -> (res: u128)
    ensures
        res == xxh3(bytes@),
{
    xxhash_rust::xxh3::xxh3_128(bytes)
}

/// `rand::random` draws any `u16`: nothing can be said of which.
#[verifier::external_body]
pub(crate) fn random_u16() -> (res: u16) {
    rand::random::<u16>()
}

/// What stands in quotes behind `lead`, at the beginning of `s`: not empty, and up to the
/// next double quote.
pub open spec fn quoted_first(s: Seq<char>, lead: Seq<char>) -> Option<Seq<char>> {
    let rest = s.skip(lead.len() as int);
    let end = text::first_index(rest, '"');
    if text::begins_with(s, lead) && 0 < end < rest.len() {
        Some(rest.take(end))
    } else {
        None
    }
}

/// What stands in quotes behind the first `lead` in `s` that a quoted text follows.
pub open spec fn quoted_behind(s: Seq<char>, lead: Seq<char>) -> Option<Seq<char>>
    decreases s.len(),
{
    if quoted_first(s, lead) is Some || s.len() == 0 {
        quoted_first(s, lead)
    } else {
        quoted_behind(s.drop_first(), lead)
    }
}

/// `regex::Regex::new` compiles `pattern`, and `Regex::captures` gives the leftmost match in
/// `s`, of which group 1 is taken. In both patterns that group is one or more characters
/// other than a double quote, with a literal text before it and a double quote behind it, so
/// it reaches up to the next double quote. A pattern that does not compile, or has no group,
/// would panic; these two do compile, and have one group.
#[verifier::external_body]
pub(crate) fn captured(pattern: &str, s: &str) -> (res: Option<String>)
    requires
        pattern@ == "<img sr[c]=\"file://([^\"]+)\""@ || pattern@ == "filepath=\"([^\"]+)\""@,
    ensures
        pattern@ == "<img sr[c]=\"file://([^\"]+)\""@ ==> text::text_in(res) == quoted_behind(
            s@,
            "<img src=\"file://"@,
        ),
        pattern@ == "filepath=\"([^\"]+)\""@ ==> text::text_in(res) == quoted_behind(
            s@,
            "filepath=\""@,
        ),
{
    let re = regex::Regex::new(pattern).unwrap();
    match re.captures(s) {
        Some(groups) => Some(groups[1].to_string()),
        None => None,
    }
}

} // verus!
