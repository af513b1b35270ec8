//! `file://` URLs: how a path is written into one and read back.
use crate::outside;
use crate::text;
use vstd::prelude::*;
use vstd::string::*;
use vstd::utf8::*;

verus! {

/// `b` stands for itself in a percent-encoded text: an ASCII letter or digit, or one of
/// `-`, `.`, `_`, `~`.
pub open spec fn unreserved(b: u8) -> bool {
    ||| 0x30 <= b <= 0x39
    ||| 0x41 <= b <= 0x5A
    ||| 0x61 <= b <= 0x7A
    ||| b == 0x2D
    ||| b == 0x2E
    ||| b == 0x5F
    ||| b == 0x7E
}

/// The upper-case hexadecimal digit for `d < 16`.
pub open spec fn upper_hex(d: int) -> char {
    if d < 10 {
        (0x30 + d) as char
    } else {
        (0x37 + d) as char
    }
}

/// A percent sign and the two hexadecimal digits of `b`.
pub open spec fn escape(b: u8) -> Seq<char> {
    seq!['%', upper_hex(b as int / 16), upper_hex(b as int % 16)]
}

/// Every byte but the unreserved ones written as its escape.
pub open spec fn percent_encode(bytes: Seq<u8>) -> Seq<char>
    decreases bytes.len(),
{
    if bytes.len() == 0 {
        Seq::empty()
    } else {
        (if unreserved(bytes[0]) {
            seq![bytes[0] as char]
        } else {
            escape(bytes[0])
        }) + percent_encode(bytes.drop_first())
    }
}

/// One byte of a path inside a URL: slashes stay as they are.
pub open spec fn path_piece(b: u8) -> Seq<char> {
    if unreserved(b) || b == 0x2F {
        seq![b as char]
    } else {
        escape(b)
    }
}

/// Every byte but slashes and the unreserved ones written as its escape.
pub open spec fn url_path(bytes: Seq<u8>) -> Seq<char>
    decreases bytes.len(),
{
    if bytes.len() == 0 {
        Seq::empty()
    } else {
        path_piece(bytes[0]) + url_path(bytes.drop_first())
    }
}

/// The value of a hexadecimal digit of either case, given in ASCII.
pub open spec fn hex_value(b: u8) -> Option<int> {
    if 0x30 <= b <= 0x39 {
        Some(b - 0x30)
    } else if 0x41 <= b <= 0x46 {
        Some(b - 0x37)
    } else if 0x61 <= b <= 0x66 {
        Some(b - 0x57)
    } else {
        None
    }
}

/// `bytes` begins with a percent sign and two hexadecimal digits.
pub open spec fn escape_first(bytes: Seq<u8>) -> bool {
    &&& bytes.len() >= 3
    &&& bytes[0] == 0x25
    &&& hex_value(bytes[1]) is Some
    &&& hex_value(bytes[2]) is Some
}

/// Each escape turned into the byte that it stands for; all else is kept.
pub open spec fn percent_decode(bytes: Seq<u8>) -> Seq<u8>
    decreases bytes.len(),
{
    if bytes.len() == 0 {
        Seq::empty()
    } else if escape_first(bytes) {
        seq![(hex_value(bytes[1])->0 * 16 + hex_value(bytes[2])->0) as u8] + percent_decode(
            bytes.skip(3),
        )
    } else {
        seq![bytes[0]] + percent_decode(bytes.drop_first())
    }
}

/// The text that `bytes` encode, if they are UTF-8.
pub open spec fn utf8_text(bytes: Seq<u8>) -> Option<Seq<char>> {
    if valid_utf8(bytes) {
        Some(decode_utf8(bytes))
    } else {
        None
    }
}

/// The path `path` as it is written behind the `file://` of a URL.
pub open spec fn encoded_path(path: Seq<char>) -> Seq<char> {
    url_path(encode_utf8(path))
}

/// The `file://` URL of a path.
pub open spec fn url_of(path: Seq<char>) -> Seq<char> {
    "file://"@ + encoded_path(path)
}

/// `text` begins like a `file://` URL.
pub open spec fn is_file_url(text: Seq<char>) -> bool {
    text::begins_with(text, "file://"@)
}

/// The path that a `file://` URL names; none where what it decodes to is not UTF-8.
pub open spec fn path_of(url: Seq<char>) -> Option<Seq<char>> {
    utf8_text(percent_decode(encode_utf8(url.skip("file://"@.len() as int))))
}

/// Taking the escaped slashes back turns plain percent-encoding into that of paths.
proof fn lemma_slashes_restored(bytes: Seq<u8>)
    ensures
        text::replaced(percent_encode(bytes), "%2F"@, "/"@) == url_path(bytes),
    decreases bytes.len(),
{
    reveal_strlit("%2F");
    reveal_strlit("/");
    let s = percent_encode(bytes);
    if bytes.len() > 0 {
        let b = bytes[0];
        let rest = percent_encode(bytes.drop_first());
        lemma_slashes_restored(bytes.drop_first());
        if unreserved(b) {
            assert(s[0] == b as char);
            if text::begins_with(s, "%2F"@) {
                assert(s.subrange(0, 3)[0] == "%2F"@[0]);
            }
            assert(s.drop_first() =~= rest);
        } else if b == 0x2F {
            assert(escape(b) =~= "%2F"@);
            assert(s.subrange(0, 3) =~= "%2F"@);
            assert(s.skip(3) =~= rest);
            assert("/"@ =~= seq![b as char]);
        } else {
            let h = upper_hex(b as int / 16);
            let l = upper_hex(b as int % 16);
            if text::begins_with(s, "%2F"@) {
                assert(s.subrange(0, 3)[1] == "%2F"@[1]);
                assert(s.subrange(0, 3)[2] == "%2F"@[2]);
                assert(false);
            }
            let s1 = s.drop_first();
            assert(s1 =~= seq![h, l] + rest);
            if text::begins_with(s1, "%2F"@) {
                assert(s1.subrange(0, 3)[0] == "%2F"@[0]);
            }
            let s2 = s1.drop_first();
            assert(s2 =~= seq![l] + rest);
            if text::begins_with(s2, "%2F"@) {
                assert(s2.subrange(0, 3)[0] == "%2F"@[0]);
            }
            assert(s2.drop_first() =~= rest);
            let r = text::replaced(rest, "%2F"@, "/"@);
            assert(text::replaced(s2, "%2F"@, "/"@) == seq![l] + r);
            assert(text::replaced(s1, "%2F"@, "/"@) == seq![h] + (seq![l] + r));
            assert(text::replaced(s, "%2F"@, "/"@) == seq!['%'] + (seq![h] + (seq![l] + r)));
            assert(seq!['%'] + (seq![h] + (seq![l] + r)) =~= escape(b) + r);
        }
    }
}

/// `path` with every byte but slashes and the unreserved ones percent-encoded.
pub fn encode_path(path: &str) -> (res: String)
    ensures
        res@ == encoded_path(path@),
{
    proof {
        lemma_slashes_restored(encode_utf8(path@));
        reveal_strlit("%2F");
    }
    text::replace(outside::percent_encoded(path).as_str(), "%2F", "/")
}

/// The `file://` URL of a path.
pub fn file_url(path: &str) -> (res: String)
    ensures
        res@ == url_of(path@),
{
    let mut url = String::from_str("file://");
    url.append(encode_path(path).as_str());
    url
}

/// The path that a `file://` URL names; none where what it decodes to is not UTF-8.
pub fn file_url_path(url: &str) -> (res: Option<String>)
    requires
        is_file_url(url@),
    ensures
        text::text_in(res) == path_of(url@),
{
    let cs = text::chars_of(url);
    let skip: usize = "file://".unicode_len();
    assert(url@.subrange(skip as int, url@.len() as int) =~= url@.skip(skip as int));
    outside::percent_decoded(text::text_of(cs.as_slice(), skip, cs.len()).as_str())
}

/// `c` is a percent sign, a slash or an unreserved character.
pub open spec fn url_path_char(c: char) -> bool {
    c == '%' || c == '/' || ('\0' <= c <= '\u{7e}' && unreserved(c as u8))
}

/// A path is encoded to percent signs, slashes and unreserved characters alone.
pub proof fn lemma_url_path_chars(bytes: Seq<u8>)
    ensures
        forall|i: int|
            0 <= i < url_path(bytes).len() ==> url_path_char(#[trigger] url_path(bytes)[i]),
    decreases bytes.len(),
{
    if bytes.len() > 0 {
        let piece = path_piece(bytes[0]);
        let rest = url_path(bytes.drop_first());
        lemma_url_path_chars(bytes.drop_first());
        assert forall|i: int| 0 <= i < url_path(bytes).len() implies url_path_char(
            #[trigger] url_path(bytes)[i],
        ) by {
            if i < piece.len() {
                assert(url_path(bytes)[i] == piece[i]);
            } else {
                assert(url_path(bytes)[i] == rest[i - piece.len()]);
            }
        }
    }
}

/// The ASCII codes of `s`.
spec fn codes(s: Seq<char>) -> Seq<u8> {
    Seq::new(s.len(), |i: int| s[i] as u8)
}

/// Decoding undoes the encoding of paths, byte by byte.
proof fn lemma_decode_encoded(bytes: Seq<u8>)
    ensures
        percent_decode(codes(url_path(bytes))) == bytes,
    decreases bytes.len(),
{
    let e = codes(url_path(bytes));
    if bytes.len() == 0 {
        assert(percent_decode(e) =~= bytes);
    } else {
        let b = bytes[0];
        let rest = codes(url_path(bytes.drop_first()));
        lemma_decode_encoded(bytes.drop_first());
        assert(e =~= codes(path_piece(b)) + rest);
        if unreserved(b) || b == 0x2F {
            assert(e[0] == b);
            assert(e.drop_first() =~= rest);
        } else {
            let h = b as int / 16;
            let l = b as int % 16;
            assert(e[0] == 0x25);
            assert(hex_value(e[1]) == Some(h));
            assert(hex_value(e[2]) == Some(l));
            assert(e.skip(3) =~= rest);
        }
        assert(seq![b] + bytes.drop_first() =~= bytes);
    }
}

/// A path written into a URL is read back unchanged: `file_url_path` undoes `file_url`.
pub proof fn url_names_its_path(path: Seq<char>)
    ensures
        is_file_url(url_of(path)),
        path_of(url_of(path)) == Some(path),
{
    let bytes = encode_utf8(path);
    let enc = encoded_path(path);
    let url = url_of(path);
    let lead = "file://"@;
    assert(url.subrange(0, lead.len() as int) =~= lead);
    assert(url.skip(lead.len() as int) =~= enc);
    lemma_url_path_chars(bytes);
    assert(is_ascii_chars(enc));
    is_ascii_chars_encode_utf8(enc);
    assert(encode_utf8(enc) =~= codes(enc));
    lemma_decode_encoded(bytes);
    encode_utf8_valid_utf8(path);
    encode_utf8_decode_utf8(path);
}

/// What two byte strings are encoded to, one behind the other.
proof fn lemma_url_path_concat(a: Seq<u8>, b: Seq<u8>)
    ensures
        url_path(a + b) == url_path(a) + url_path(b),
    decreases a.len(),
{
    if a.len() == 0 {
        assert(a + b =~= b);
        assert(url_path(a) + url_path(b) =~= url_path(b));
    } else {
        lemma_url_path_concat(a.drop_first(), b);
        assert((a + b).drop_first() =~= a.drop_first() + b);
        assert(path_piece(a[0]) + (url_path(a.drop_first()) + url_path(b)) =~= url_path(a)
            + url_path(b));
    }
}

/// The UTF-8 encoding of two texts, one behind the other.
proof fn lemma_utf8_concat(a: Seq<char>, b: Seq<char>)
    ensures
        encode_utf8(a + b) == encode_utf8(a) + encode_utf8(b),
    decreases a.len(),
{
    if a.len() == 0 {
        assert(a + b =~= b);
        assert(encode_utf8(a) + encode_utf8(b) =~= encode_utf8(b));
    } else {
        lemma_utf8_concat(a.drop_first(), b);
        assert((a + b).drop_first() =~= a.drop_first() + b);
        assert(encode_utf8(a + b) =~= encode_utf8(a) + encode_utf8(b));
    }
}

/// The parts of a path on the two sides of a slash are encoded on their own, and the slash
/// between them stays.
pub proof fn slashes_are_kept(a: Seq<char>, b: Seq<char>)
    ensures
        encoded_path(a + seq!['/'] + b) == encoded_path(a) + seq!['/'] + encoded_path(b),
{
    let slash = seq!['/'];
    lemma_utf8_concat(a + slash, b);
    lemma_utf8_concat(a, slash);
    is_ascii_chars_encode_utf8(slash);
    assert(encode_utf8(slash) =~= seq![0x2Fu8]);
    lemma_url_path_concat(encode_utf8(a) + seq![0x2Fu8], encode_utf8(b));
    lemma_url_path_concat(encode_utf8(a), seq![0x2Fu8]);
    assert(url_path(seq![0x2Fu8].drop_first()) =~= Seq::empty());
    assert(path_piece(0x2F) =~= slash);
    assert(url_path(seq![0x2Fu8]) =~= slash);
}

/// Bytes are written into the path of a URL one by one, in order: ASCII letters and digits, `-`,
/// `.`, `_`, `~` and the slash as they are, and every other byte as a percent sign and two
/// hexadecimal digits.
pub proof fn bytes_are_written(a: Seq<u8>, b: u8, rest: Seq<u8>)
    ensures
        url_path(Seq::<u8>::empty()) == Seq::<char>::empty(),
        url_path(a + rest) == url_path(a) + url_path(rest),
        url_path(seq![b]) == ({
            let c = b as char;
            if 'a' <= c <= 'z' || 'A' <= c <= 'Z' || '0' <= c <= '9' || c == '-' || c == '.' || c == '_'
                || c == '~' || c == '/' {
                seq![c]
            } else {
                seq![
                    '%',
                    "0123456789ABCDEF"@[b as int / 16],
                    "0123456789ABCDEF"@[b as int % 16],
                ]
            }
        }),
{
    reveal_strlit("0123456789ABCDEF");
    lemma_url_path_concat(a, rest);
    assert(seq![b].drop_first() =~= Seq::<u8>::empty());
    assert(url_path(seq![b].drop_first()) =~= Seq::<char>::empty());
    assert(url_path(seq![b]) =~= path_piece(b));
    assert(upper_hex(b as int / 16) == "0123456789ABCDEF"@[b as int / 16]);
    assert(upper_hex(b as int % 16) == "0123456789ABCDEF"@[b as int % 16]);
}

/// Plain percent-encoding differs from that of paths in the slash alone.
pub proof fn slash_is_reserved(b: u8, rest: Seq<u8>)
    ensures
        percent_encode(Seq::<u8>::empty()) == Seq::<char>::empty(),
        percent_encode(seq![b] + rest) == (if b == 0x2F {
            "%2F"@
        } else {
            url_path(seq![b])
        }) + percent_encode(rest),
{
    reveal_strlit("%2F");
    assert((seq![b] + rest).drop_first() =~= rest);
    assert(seq![b].drop_first() =~= Seq::<u8>::empty());
    assert(url_path(seq![b].drop_first()) =~= Seq::<char>::empty());
    assert(url_path(seq![b]) =~= path_piece(b));
    if b == 0x2F {
        assert(escape(b) =~= "%2F"@);
    }
}

/// The URL of a path is `file://` and the path, byte by byte of its UTF-8 encoding: what stands
/// behind in the path stands behind in the URL.
pub proof fn paths_are_written(a: Seq<char>, b: Seq<char>)
    ensures
        url_of(Seq::<char>::empty()) == "file://"@,
        url_of(a + b) == url_of(a) + url_path(encode_utf8(b)),
        encoded_path(b) == url_path(encode_utf8(b)),
{
    lemma_utf8_concat(a, b);
    lemma_url_path_concat(encode_utf8(a), encode_utf8(b));
    assert(encode_utf8(Seq::<char>::empty()) =~= Seq::empty());
    assert("file://"@ + Seq::<char>::empty() =~= "file://"@);
    assert("file://"@ + (url_path(encode_utf8(a)) + url_path(encode_utf8(b))) =~= url_of(a)
        + url_path(encode_utf8(b)));
}

/// A percent sign with two hexadecimal digits behind it, in capitals or small letters, is read
/// as the byte that they count; the rest is read on its own.
pub proof fn escapes_are_read(h: int, l: int, x: u8, y: u8, rest: Seq<u8>)
    requires
        0 <= h < 16,
        0 <= l < 16,
        x as char == "0123456789abcdef"@[h] || x as char == "0123456789ABCDEF"@[h],
        y as char == "0123456789abcdef"@[l] || y as char == "0123456789ABCDEF"@[l],
    ensures
        percent_decode(Seq::<u8>::empty()) == Seq::<u8>::empty(),
        percent_decode(seq![0x25u8, x, y] + rest) == seq![(h * 16 + l) as u8] + percent_decode(rest),
{
    reveal_strlit("0123456789abcdef");
    reveal_strlit("0123456789ABCDEF");
    let s = seq![0x25u8, x, y] + rest;
    assert(hex_value(x) == Some(h));
    assert(hex_value(y) == Some(l));
    assert(s.skip(3) =~= rest);
}

/// `b` is the ASCII code of a hexadecimal digit.
pub open spec fn hex_digit(b: u8) -> bool {
    '0' <= b as char <= '9' || 'a' <= b as char <= 'f' || 'A' <= b as char <= 'F'
}

/// Every other byte is read as itself: also a percent sign without two hexadecimal digits
/// behind it.
pub proof fn other_bytes_are_kept(b: u8, rest: Seq<u8>)
    requires
        b as char != '%' || rest.len() < 2 || !hex_digit(rest[0]) || !hex_digit(rest[1]),
    ensures
        percent_decode(seq![b] + rest) == seq![b] + percent_decode(rest),
{
    let s = seq![b] + rest;
    assert(s.drop_first() =~= rest);
    if rest.len() >= 2 {
        assert(s[1] == rest[0] && s[2] == rest[1]);
    }
}

/// A `file://` URL is any text that begins so. It names the path that the rest of it is read as,
/// if that is UTF-8, and no path otherwise.
pub proof fn urls_name_paths(t: Seq<char>)
    ensures
        is_file_url("file://"@ + t),
        path_of("file://"@ + t) == ({
            let bytes = percent_decode(encode_utf8(t));
            if valid_utf8(bytes) {
                Some(decode_utf8(bytes))
            } else {
                None
            }
        }),
        is_file_url(t) <==> exists|rest: Seq<char>| t == #[trigger] ("file://"@ + rest),
{
    let lead = "file://"@;
    assert((lead + t).subrange(0, lead.len() as int) =~= lead);
    assert((lead + t).skip(lead.len() as int) =~= t);
    text::search_is_exact(t, lead, 0);
}

} // verus!
