//! How pictures are drawn: what the terminal can do, and which program draws.
use crate::program::Call;
use crate::program::Invocation;
use crate::text;
use vstd::prelude::*;
use vstd::string::*;

verus! {

/// What the terminal can do.
#[derive(Clone, Copy, Debug, PartialEq, Eq, Structural)]
pub struct Graphics {
    /// It takes pictures in the protocol of kitty.
    pub icat: bool,
    /// It is kitty itself.
    pub native: bool,
}

/// The name of the file that keeps what is known of a terminal.
pub fn kitty_cache_path(term: &str, wez: &str) -> (res: String)
    ensures
        res@ == "/dev/shm/shorinclip_kitty_"@ + term@ + "_"@ + wez@,
{
    let mut path = String::from_str("/dev/shm/shorinclip_kitty_");
    path.append(term);
    path.append("_");
    path.append(wez);
    path
}

/// A flag as it is written to the environment and the cache.
pub open spec fn flag_of(on: bool) -> Seq<char> {
    if on {
        "1"@
    } else {
        "0"@
    }
}

/// A flag as it is written to the environment and the cache.
pub fn flag(on: bool) -> (res: String)
    ensures
        res@ == flag_of(on),
{
    if on {
        String::from_str("1")
    } else {
        String::from_str("0")
    }
}

/// Whether the value of a variable in the environment is that of a set flag.
pub fn is_set(value: &str) -> (res: bool)
    ensures
        res == (value@ == flag_of(true)),
{
    text::same_text(value, "1")
}

/// What is known of a terminal: what the cache holds, where there is one, else what the name
/// of the terminal tells.
pub open spec fn graphics_of(term: Seq<char>, cached: Option<Seq<char>>) -> Graphics {
    match cached {
        Some(cache) => Graphics {
            icat: text::has_text(cache, "ENABLE_ICAT=1"@),
            native: text::has_text(cache, "IS_NATIVE_KITTY=1"@),
        },
        None => Graphics { icat: term == "xterm-kitty"@, native: term == "xterm-kitty"@ },
    }
}

/// What is known of a terminal: what the cache holds, where there is one, else what the name
/// of the terminal tells.
pub fn detect_graphics(term: &str, cached: Option<&str>) -> (res: Graphics)
    ensures
        res == graphics_of(
            term@,
            match cached {
                Some(cache) => Some(cache@),
                None => None,
            },
        ),
{
    match cached {
        Some(cache) => {
            let chars = text::chars_of(cache);
            Graphics {
                icat: text::contains(chars.as_slice(), "ENABLE_ICAT=1"),
                native: text::contains(chars.as_slice(), "IS_NATIVE_KITTY=1"),
            }
        },
        None => {
            let kitty = text::same_text(term, "xterm-kitty");
            Graphics { icat: kitty, native: kitty }
        },
    }
}

/// What is written to the cache for a terminal.
pub open spec fn cache_of(g: Graphics) -> Seq<char> {
    "export ENABLE_ICAT="@ + flag_of(g.icat) + "; export IS_NATIVE_KITTY="@ + flag_of(g.native)
}

/// What is written to the cache for a terminal.
pub fn graphics_cache(g: Graphics) -> (res: String)
    ensures
        res@ == cache_of(g),
{
    let mut cache = String::from_str("export ENABLE_ICAT=");
    cache.append(flag(g.icat).as_str());
    cache.append("; export IS_NATIVE_KITTY=");
    cache.append(flag(g.native).as_str());
    cache
}

/// What is written to the cache for a terminal is read back from it.
pub proof fn cache_is_read_back(term: Seq<char>, g: Graphics)
    ensures
        graphics_of(term, Some(cache_of(g))) == g,
{
    reveal_strlit("export ENABLE_ICAT=");
    reveal_strlit("; export IS_NATIVE_KITTY=");
    reveal_strlit("ENABLE_ICAT=1");
    reveal_strlit("IS_NATIVE_KITTY=1");
    reveal_strlit("0");
    reveal_strlit("1");
    let s = cache_of(g);
    let icat = "ENABLE_ICAT=1"@;
    let native = "IS_NATIVE_KITTY=1"@;
    if g.icat {
        assert(s.subrange(7, 20) =~= icat);
        assert(text::occurs_at(s, icat, 7));
    } else if text::has_text(s, icat) {
        let i = choose|i: int| text::occurs_at(s, icat, i);
        let found = s.subrange(i, i + 13);
        assert(found[12] == '1' && found[0] == 'E');
        assert(s[i + 12] == '1' && s[i] == 'E');
        assert(i + 12 == 45);
        assert(false);
    }
    if g.native {
        assert(s.subrange(29, 46) =~= native);
        assert(text::occurs_at(s, native, 29));
    } else if text::has_text(s, native) {
        let i = choose|i: int| text::occurs_at(s, native, i);
        let found = s.subrange(i, i + 17);
        assert(found[16] == '1' && found[0] == 'I');
        assert(s[i + 16] == '1' && s[i] == 'I');
        assert(i + 16 == 19);
        assert(false);
    }
}

/// What makes a terminal delete all pictures, in the protocol of kitty: an escape, `_Ga=d,d=A`,
/// an escape and a backslash.
pub open spec fn delete_images() -> Seq<u8> {
    seq![0x1Bu8, 0x5F, 0x47, 0x61, 0x3D, 0x64, 0x2C, 0x64, 0x3D, 0x41, 0x1B, 0x5C]
}

/// What is written to the terminal to delete all pictures; nothing where it takes none.
pub open spec fn clear_of(g: Graphics) -> Option<Seq<u8>> {
    if g.icat {
        Some(delete_images())
    } else {
        None
    }
}

/// What is written to the terminal to delete all pictures; nothing where it takes none.
pub fn clear_sequence(g: Graphics) -> (res: Option<Vec<u8>>)
    ensures
        res is Some <==> g.icat,
        res matches Some(bytes) ==> bytes@ == delete_images(),
{
    if g.icat {
        let bytes: Vec<u8> = vec![
            0x1B,
            0x5F,
            0x47,
            0x61,
            0x3D,
            0x64,
            0x2C,
            0x64,
            0x3D,
            0x41,
            0x1B,
            0x5C,
        ];
        assert(bytes@ =~= delete_images());
        Some(bytes)
    } else {
        None
    }
}

/// The size of the preview as it is handed to the program that draws.
pub open spec fn size_of(cols: Option<Seq<char>>, lines: Option<Seq<char>>) -> Seq<char> {
    cols.unwrap_or("80"@) + "x"@ + lines.unwrap_or("24"@)
}

/// The program that draws a picture, and its arguments before the path of the picture. It is
/// `kitty icat` for a GIF in kitty itself, and `chafa` for all else, which is told to use the
/// protocol of kitty where the terminal takes that.
pub open spec fn viewer_of(g: Graphics, mime: Seq<char>, size: Seq<char>) -> Call {
    if g.icat && g.native && mime == "image/gif"@ {
        Call {
            program: "kitty"@,
            args: seq![
                "icat"@,
                "--transfer-mode=file"@,
                "--image-id=10"@,
                "--place="@ + size + "@0x0"@,
            ],
        }
    } else if g.icat {
        Call {
            program: "chafa"@,
            args: seq!["-f"@, "kitty"@, "--animate=off"@, "--size="@ + size],
        }
    } else {
        Call { program: "chafa"@, args: seq!["--animate=off"@, "--size="@ + size] }
    }
}

/// A program that draws, and whether it reads from the terminal.
#[derive(Debug)]
pub struct Viewer {
    pub call: Invocation,
    pub from_tty: bool,
}

/// The size of the preview, with 80 columns and 24 lines where it is not known.
fn preview_size(cols: Option<&str>, lines: Option<&str>) -> (res: String)
    ensures
        res@ == size_of(
            match cols {
                Some(c) => Some(c@),
                None => None,
            },
            match lines {
                Some(l) => Some(l@),
                None => None,
            },
        ),
{
    let mut size = String::from_str(
        match cols {
            Some(c) => c,
            None => "80",
        },
    );
    size.append("x");
    size.append(
        match lines {
            Some(l) => l,
            None => "24",
        },
    );
    size
}

/// The program that draws a picture of the type `mime`, before the path of the picture, in a
/// preview of `cols` columns and `lines` lines. It is to read from the terminal exactly if it
/// is `kitty icat`.
pub fn image_viewer(g: Graphics, mime: &str, cols: Option<&str>, lines: Option<&str>) -> (res:
    Viewer)
    ensures
        res.call@ == viewer_of(
            g,
            mime@,
            size_of(
                match cols {
                    Some(c) => Some(c@),
                    None => None,
                },
                match lines {
                    Some(l) => Some(l@),
                    None => None,
                },
            ),
        ),
        res.from_tty == (g.icat && g.native && mime@ == "image/gif"@),
{
    let size = preview_size(cols, lines);
    let from_tty = g.icat && g.native && text::same_text(mime, "image/gif");
    let mut call;
    if from_tty {
        call = Invocation::new("kitty");
        call.arg("icat");
        call.arg("--transfer-mode=file");
        call.arg("--image-id=10");
        let mut place = String::from_str("--place=");
        place.append(size.as_str());
        place.append("@0x0");
        call.arg(place.as_str());
    } else {
        call = Invocation::new("chafa");
        if g.icat {
            call.arg("-f");
            call.arg("kitty");
        }
        call.arg("--animate=off");
        let mut option = String::from_str("--size=");
        option.append(size.as_str());
        call.arg(option.as_str());
    }
    assert(call@.args =~= viewer_of(g, mime@, size@).args);
    Viewer { call, from_tty }
}

/// The program that makes the thumbnail of a video.
pub open spec fn thumbnailer_of(video: Seq<char>, thumb: Seq<char>) -> Call {
    Call {
        program: "ffmpegthumbnailer"@,
        args: seq!["-i"@, video, "-o"@, thumb, "-s"@, "0"@, "-t"@, "0"@],
    }
}

/// The program that makes the thumbnail `thumb` of the file `video`.
fn thumbnailer(video: &str, thumb: &str) -> (res: Invocation)
    ensures
        res@ == thumbnailer_of(video@, thumb@),
{
    let mut call = Invocation::new("ffmpegthumbnailer");
    call.arg("-i");
    call.arg(video);
    call.arg("-o");
    call.arg(thumb);
    call.arg("-s");
    call.arg("0");
    call.arg("-t");
    call.arg("0");
    assert(call@.args =~= thumbnailer_of(video@, thumb@).args);
    call
}

/// The program that is to be run before the thumbnail `thumb` of the file `video` is shown,
/// given whether there is such a thumbnail: one that is there is never made again.
pub fn thumbnail_call(video: &str, thumb: &str, exists: bool) -> (res: Option<Invocation>)
    ensures
        res is None <==> exists,
        res matches Some(call) ==> call@ == thumbnailer_of(video@, thumb@),
{
    if exists {
        None
    } else {
        Some(thumbnailer(video, thumb))
    }
}

/// What is printed in place of the thumbnail of a video, given whether there is a thumbnail
/// and how many bytes it has, if that is known; nothing where it can be shown.
pub fn thumbnail_fallback(video: &str, exists: bool, len: Option<u64>) -> (res: Option<String>)
    ensures
        res is None <==> exists && len is Some && len->0 > 0,
        res matches Some(message) ==> message@ == "Video: "@ + video@ + " (No thumbnail)"@,
{
    let filled = match len {
        Some(len) => len > 0,
        None => false,
    };
    if exists && filled {
        None
    } else {
        let mut message = String::from_str("Video: ");
        message.append(video);
        message.append(" (No thumbnail)");
        Some(message)
    }
}

/// What deletes the pictures of a terminal is the escape sequence of kitty for it, written
/// exactly where the terminal takes pictures.
pub proof fn images_are_deleted()
    ensures
        delete_images() == vstd::utf8::encode_utf8("\x1b_Ga=d,d=A\x1b\\"@),
        forall|g: Graphics|
            #[trigger] clear_of(g) == (if g.icat {
                Some(vstd::utf8::encode_utf8("\x1b_Ga=d,d=A\x1b\\"@))
            } else {
                None
            }),
{
    reveal_strlit("\x1b_Ga=d,d=A\x1b\\");
    let s = "\x1b_Ga=d,d=A\x1b\\"@;
    assert(vstd::utf8::is_ascii_chars(s));
    vstd::utf8::is_ascii_chars_encode_utf8(s);
    assert(delete_images() =~= vstd::utf8::encode_utf8(s)) by {
        assert forall|i: int| 0 <= i < s.len() implies delete_images()[i] == s[i] as u8 by {}
    }
}

/// A terminal without notes takes pictures exactly if it is kitty. One with notes takes them
/// exactly if these say so, and is kitty exactly if these say so, wherever in them.
pub proof fn terminals_are_told(term: Seq<char>, a: Seq<char>, b: Seq<char>, cache: Seq<char>)
    ensures
        graphics_of("xterm-kitty"@, None) == (Graphics { icat: true, native: true }),
        term != "xterm-kitty"@ ==> graphics_of(term, None) == (Graphics {
            icat: false,
            native: false,
        }),
        graphics_of(term, Some(a + "ENABLE_ICAT=1"@ + b)).icat,
        graphics_of(term, Some(a + "IS_NATIVE_KITTY=1"@ + b)).native,
        graphics_of(term, Some(cache)).icat ==> exists|x: Seq<char>, y: Seq<char>|
            cache == #[trigger] (x + "ENABLE_ICAT=1"@ + y),
        graphics_of(term, Some(cache)).native ==> exists|x: Seq<char>, y: Seq<char>|
            cache == #[trigger] (x + "IS_NATIVE_KITTY=1"@ + y),
{
    text::search_is_exact(cache, "ENABLE_ICAT=1"@, 0);
    text::search_is_exact(cache, "IS_NATIVE_KITTY=1"@, 0);
    text::search_is_exact(a + "ENABLE_ICAT=1"@ + b, "ENABLE_ICAT=1"@, 0);
    text::search_is_exact(a + "IS_NATIVE_KITTY=1"@ + b, "IS_NATIVE_KITTY=1"@, 0);
}

/// What is noted of a terminal, and how a flag is written.
pub proof fn terminals_are_noted(icat: bool, native: bool)
    ensures
        flag_of(true) == "1"@,
        flag_of(false) == "0"@,
        cache_of(Graphics { icat, native }) == "export ENABLE_ICAT="@ + (if icat {
            "1"@
        } else {
            "0"@
        }) + "; export IS_NATIVE_KITTY="@ + (if native {
            "1"@
        } else {
            "0"@
        }),
{
}

/// A GIF in kitty itself is drawn by `kitty icat`, so that it moves, in the whole preview.
pub proof fn gifs_move_in_kitty(size: Seq<char>)
    ensures
        viewer_of(Graphics { icat: true, native: true }, "image/gif"@, size) == (Call {
            program: "kitty"@,
            args: seq![
                "icat"@,
                "--transfer-mode=file"@,
                "--image-id=10"@,
                "--place="@ + size + "@0x0"@,
            ],
        }),
{
}

/// Every other picture, and every picture elsewhere, is drawn by `chafa`, without moving, in the
/// whole preview; where the terminal takes pictures, it is told to use its protocol.
pub proof fn chafa_draws(native: bool, mime: Seq<char>, size: Seq<char>)
    ensures
        viewer_of(Graphics { icat: false, native }, mime, size) == (Call {
            program: "chafa"@,
            args: seq!["--animate=off"@, "--size="@ + size],
        }),
        !native || mime != "image/gif"@ ==> viewer_of(
            Graphics { icat: true, native },
            mime,
            size,
        ) == (Call {
            program: "chafa"@,
            args: seq!["-f"@, "kitty"@, "--animate=off"@, "--size="@ + size],
        }),
{
}

/// The size of the preview is its columns and its lines, and that of a small terminal where they
/// are not known.
pub proof fn sizes_are_written(cols: Seq<char>, lines: Seq<char>)
    ensures
        size_of(Some(cols), Some(lines)) == cols + "x"@ + lines,
        size_of(None, Some(lines)) == "80"@ + "x"@ + lines,
        size_of(Some(cols), None) == cols + "x"@ + "24"@,
        size_of(None, None) == "80"@ + "x"@ + "24"@,
{
}

/// A thumbnail is made from the first picture of the video, in its own size, under the name that
/// is asked for.
pub proof fn thumbnails_are_made(video: Seq<char>, thumb: Seq<char>)
    ensures
        thumbnailer_of(video, thumb) == (Call {
            program: "ffmpegthumbnailer"@,
            args: seq!["-i"@, video, "-o"@, thumb, "-s"@, "0"@, "-t"@, "0"@],
        }),
{
}

} // verus!
