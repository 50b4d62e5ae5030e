//! What is made of the clipboard's contents.

use vstd::prelude::*;
use vstd::utf8::{decode_utf8, valid_utf8};
use crate::text::{
    append_decimal, append_wide_decimal, decimal, opt_text, owned, path_join, path_joined, texts,
};

verus! {

/// `String::from_utf8`: the text whose UTF-8 the bytes are, and nothing where they are that of
/// no text.
#[verifier::external_body]
fn utf8_text(bytes: Vec<u8>) -> (r: Option<String>)
    ensures
        match r {
            Some(s) => valid_utf8(bytes@) && s@ == decode_utf8(bytes@),
            None => !valid_utf8(bytes@),
        },
{
    String::from_utf8(bytes).ok()
}

pub open spec fn opt_bytes(b: Option<Vec<u8>>) -> Option<Seq<u8>> {
    match b {
        Some(v) => Some(v@),
        None => None,
    }
}

/// What the clipboard is asked for.
#[derive(Clone, Copy, Debug, PartialEq, Eq, Structural)]
pub enum Wanted {
    Text,
    Png,
    Jpeg,
}

/// The words of the two commands that read the clipboard: the first for Wayland, the second for
/// X11.
pub open spec fn read_words(w: Wanted) -> (Seq<Seq<char>>, Seq<Seq<char>>) {
    match w {
        Wanted::Text => (
            seq!["wl-paste"@, "--no-newline"@],
            seq!["xclip"@, "-selection"@, "clipboard"@, "-o"@],
        ),
        Wanted::Png => (
            seq!["wl-paste"@, "--type"@, "image/png"@],
            seq!["xclip"@, "-selection"@, "clipboard"@, "-t"@, "image/png"@, "-o"@],
        ),
        Wanted::Jpeg => (
            seq!["wl-paste"@, "--type"@, "image/jpeg"@],
            seq!["xclip"@, "-selection"@, "clipboard"@, "-t"@, "image/jpeg"@, "-o"@],
        ),
    }
}

fn image_commands(kind: &str) -> (r: (Vec<String>, Vec<String>))
    ensures
        texts(r.0@) == seq!["wl-paste"@, "--type"@, kind@],
        texts(r.1@) == seq!["xclip"@, "-selection"@, "clipboard"@, "-t"@, kind@, "-o"@],
{
    let wl: Vec<String> = vec!["wl-paste".to_string(), "--type".to_string(), owned(kind)];
    let x: Vec<String> = vec![
        "xclip".to_string(),
        "-selection".to_string(),
        "clipboard".to_string(),
        "-t".to_string(),
        owned(kind),
        "-o".to_string(),
    ];
    assert(texts(wl@) =~= seq!["wl-paste"@, "--type"@, kind@]);
    assert(texts(x@) =~= seq!["xclip"@, "-selection"@, "clipboard"@, "-t"@, kind@, "-o"@]);
    (wl, x)
}

pub fn read_commands(w: Wanted) -> (r: (Vec<String>, Vec<String>))
    ensures
        (texts(r.0@), texts(r.1@)) == read_words(w),
{
    match w {
        Wanted::Text => {
            let wl: Vec<String> = vec!["wl-paste".to_string(), "--no-newline".to_string()];
            let x: Vec<String> = vec![
                "xclip".to_string(),
                "-selection".to_string(),
                "clipboard".to_string(),
                "-o".to_string(),
            ];
            assert(texts(wl@) =~= seq!["wl-paste"@, "--no-newline"@]);
            assert(texts(x@) =~= seq!["xclip"@, "-selection"@, "clipboard"@, "-o"@]);
            (wl, x)
        },
        Wanted::Png => image_commands("image/png"),
        Wanted::Jpeg => image_commands("image/jpeg"),
    }
}

/// What a command gave: its output, where it ended well and printed something.
pub open spec fn captured(success: bool, output: Seq<u8>) -> Option<Seq<u8>> {
    if success && output.len() > 0 {
        Some(output)
    } else {
        None
    }
}

pub fn run_capture(success: bool, output: Vec<u8>) -> (r: Option<Vec<u8>>)
    ensures
        opt_bytes(r) == captured(success, output@),
{
    if !success || output.len() == 0 {
        None
    } else {
        Some(output)
    }
}

/// What the clipboard holds: what the first command gave, or else the second, which is asked only
/// then.
pub fn read_clipboard_bytes(from_wl: Option<Vec<u8>>, from_x: Option<Vec<u8>>) -> (r: Option<
    Vec<u8>,
>)
    ensures
        r == if from_wl is Some {
            from_wl
        } else {
            from_x
        },
{
    if from_wl.is_some() {
        from_wl
    } else {
        from_x
    }
}

/// The text of the clipboard: what was read, where it is text and not empty.
pub fn read_text(bytes: Option<Vec<u8>>) -> (r: Option<String>)
    ensures
        opt_text(r) == match bytes {
            Some(b) => if valid_utf8(b@) && decode_utf8(b@).len() > 0 {
                Some(decode_utf8(b@))
            } else {
                None
            },
            None => None,
        },
{
    match bytes {
        Some(b) => match utf8_text(b) {
            Some(text) => {
                if text.as_str().is_empty() {
                    None
                } else {
                    Some(text)
                }
            },
            None => None,
        },
        None => None,
    }
}

/// The bytes that every PNG file starts with.
pub open spec fn png_mark() -> Seq<u8> {
    seq![0x89u8, 0x50u8, 0x4eu8, 0x47u8, 0x0du8, 0x0au8, 0x1au8, 0x0au8]
}

pub fn looks_like_png(bytes: &[u8]) -> (r: bool)
    ensures
        r == png_mark().is_prefix_of(bytes@),
{
    let r: bool = bytes.len() >= 8 && bytes[0] == 0x89 && bytes[1] == 0x50 && bytes[2] == 0x4e
        && bytes[3] == 0x47 && bytes[4] == 0x0d && bytes[5] == 0x0a && bytes[6] == 0x1a && bytes[7]
        == 0x0a;
    proof {
        if r {
            assert(bytes@.subrange(0, 8) =~= png_mark());
        } else if png_mark().is_prefix_of(bytes@) {
            let start = bytes@.subrange(0, 8);
            assert(start[0] == 0x89 && start[1] == 0x50 && start[2] == 0x4e && start[3] == 0x47);
            assert(start[4] == 0x0d && start[5] == 0x0a && start[6] == 0x1a && start[7] == 0x0a);
        }
    }
    r
}

/// The image of the clipboard: what was read as PNG, where it is one, or else what was read as
/// JPEG, where it is not empty.
pub open spec fn image_of(png: Option<Seq<u8>>, jpeg: Option<Seq<u8>>) -> Option<Seq<u8>> {
    if png is Some && png_mark().is_prefix_of(png->0) {
        png
    } else if jpeg is Some && jpeg->0.len() > 0 {
        jpeg
    } else {
        None
    }
}

pub fn read_image_png(png: Option<Vec<u8>>, jpeg: Option<Vec<u8>>) -> (r: Option<Vec<u8>>)
    ensures
        opt_bytes(r) == image_of(opt_bytes(png), opt_bytes(jpeg)),
{
    if let Some(bytes) = png {
        if looks_like_png(bytes.as_slice()) {
            return Some(bytes);
        }
    }
    if let Some(bytes) = jpeg {
        if bytes.len() > 0 {
            return Some(bytes);
        }
    }
    None
}

/// The directory that pasted images are written to.
pub open spec fn paste_dir_of(runtime: Option<Seq<char>>, temp: Seq<char>) -> Seq<char> {
    match runtime {
        Some(r) => if r.len() > 0 {
            path_joined(path_joined(r, "cmux"@), "pastes"@)
        } else {
            path_joined(temp, "cmux-pastes"@)
        },
        None => path_joined(temp, "cmux-pastes"@),
    }
}

pub fn paste_dir(runtime: &Option<String>, temp: &str) -> (r: String)
    ensures
        r@ == paste_dir_of(opt_text(*runtime), temp@),
{
    if let Some(dir) = runtime {
        if !dir.as_str().is_empty() {
            return path_join(path_join(dir.as_str(), "cmux").as_str(), "pastes");
        }
    }
    path_join(temp, "cmux-pastes")
}

/// The name of the file for an image, with the extension by which agents know it.
pub open spec fn paste_name(pid: u32, nanos: u128, bytes: Seq<u8>) -> Seq<char> {
    "paste-"@ + decimal(pid as nat) + "-"@ + decimal(nanos as nat) + "."@ + if png_mark().is_prefix_of(
        bytes,
    ) {
        "png"@
    } else {
        "jpg"@
    }
}

/// The file that an image is written to.
pub fn write_paste_image(dir: &str, pid: u32, nanos: u128, bytes: &[u8]) -> (r: String)
    ensures
        r@ == path_joined(dir@, paste_name(pid, nanos, bytes@)),
{
    let mut name: String = "paste-".to_string();
    append_decimal(&mut name, pid as u64);
    name.append("-");
    append_wide_decimal(&mut name, nanos);
    name.append(".");
    if looks_like_png(bytes) {
        name.append("png");
    } else {
        name.append("jpg");
    }
    path_join(dir, name.as_str())
}

/// What is pasted for an image, where there is one and it was written to a file.
pub open spec fn payload_of(image: Option<Seq<u8>>, written: Option<Seq<char>>) -> Option<
    Seq<char>,
> {
    match (image, written) {
        (Some(_), Some(path)) => Some("@"@ + path),
        _ => None,
    }
}

pub fn image_paste_payload(image: &Option<Vec<u8>>, written: &Option<String>) -> (r: Option<
    String,
>)
    ensures
        opt_text(r) == payload_of(opt_bytes(*image), opt_text(*written)),
{
    match (image, written) {
        (Some(_), Some(path)) => {
            let mut r: String = "@".to_string();
            r.append(path.as_str());
            Some(r)
        },
        _ => None,
    }
}

/// The programs that are asked for the clipboard, first the one of Wayland and then the one of X:
/// for an image its type is named, and for a text none is.
pub proof fn law_clipboard_asked(w: Wanted)
    ensures
        read_words(w).0[0] == "wl-paste"@ && read_words(w).1[0] == "xclip"@,
        read_words(w).1.contains("clipboard"@) && read_words(w).1.last() == "-o"@,
        read_words(Wanted::Png).0.last() == "image/png"@ && read_words(Wanted::Png).1.contains(
            "image/png"@,
        ),
        read_words(Wanted::Jpeg).0.last() == "image/jpeg"@ && read_words(Wanted::Jpeg).1.contains(
            "image/jpeg"@,
        ),
        read_words(Wanted::Text).0.last() == "--no-newline"@,
        read_words(Wanted::Text).1.len() == 4,
{
    assert(read_words(w).1[2] == "clipboard"@);
    assert(read_words(Wanted::Png).1[4] == "image/png"@);
    assert(read_words(Wanted::Jpeg).1[4] == "image/jpeg"@);
}

/// What was captured counts where the program succeeded and said something. A picture is taken as
/// PNG where it is one, else as JPEG.
pub proof fn law_image_chosen(out: Seq<u8>, png: Seq<u8>, jpeg: Seq<u8>)
    ensures
        captured(false, out) is None,
        out.len() > 0 ==> captured(true, out) == Some(out),
        out.len() == 0 ==> captured(true, out) is None,
        png_mark().is_prefix_of(png) ==> image_of(Some(png), Some(jpeg)) == Some(png),
        png_mark().is_prefix_of(png) ==> image_of(Some(png), None) == Some(png),
        !png_mark().is_prefix_of(png) && jpeg.len() > 0 ==> image_of(Some(png), Some(jpeg)) == Some(
            jpeg,
        ),
        jpeg.len() > 0 ==> image_of(None, Some(jpeg)) == Some(jpeg),
        !png_mark().is_prefix_of(png) ==> image_of(Some(png), None) is None,
        image_of(None, None) is None,
        png_mark().is_prefix_of(png) ==> png[1] == 'P' as u8 && png[2] == 'N' as u8 && png[3]
            == 'G' as u8,
{
    if png_mark().is_prefix_of(png) {
        assert(png.subrange(0, 8)[1] == png_mark()[1]);
        assert(png.subrange(0, 8)[2] == png_mark()[2]);
        assert(png.subrange(0, 8)[3] == png_mark()[3]);
    }
}

/// Where a picture is put: below the directory of the session, else below that for temporary
/// files, under a name that ends in its kind. It is pasted as its path behind an at sign.
pub proof fn law_paste_written(
    dir: Seq<char>,
    temp: Seq<char>,
    pid: u32,
    nanos: u128,
    bytes: Seq<u8>,
    path: Seq<char>,
)
    ensures
        dir.len() > 0 ==> paste_dir_of(Some(dir), temp) == path_joined(
            path_joined(dir, "cmux"@),
            "pastes"@,
        ),
        paste_dir_of(None, temp) == path_joined(temp, "cmux-pastes"@),
        paste_dir_of(Some(Seq::<char>::empty()), temp) == path_joined(temp, "cmux-pastes"@),
        ("paste-"@ + decimal(pid as nat) + "-"@ + decimal(nanos as nat)).is_prefix_of(
            paste_name(pid, nanos, bytes),
        ),
        png_mark().is_prefix_of(bytes) ==> "png"@.is_suffix_of(paste_name(pid, nanos, bytes)),
        !png_mark().is_prefix_of(bytes) ==> "jpg"@.is_suffix_of(paste_name(pid, nanos, bytes)),
        payload_of(Some(bytes), Some(path)) matches Some(p) && path.is_suffix_of(p) && p
            == "@"@ + path,
        payload_of(None, Some(path)) is None && payload_of(Some(bytes), None) is None,
{
    let name = paste_name(pid, nanos, bytes);
    let front = "paste-"@ + decimal(pid as nat) + "-"@ + decimal(nanos as nat);
    assert(name.take(front.len() as int) =~= front);
    let end = if png_mark().is_prefix_of(bytes) {
        "png"@
    } else {
        "jpg"@
    };
    assert(name.skip(name.len() - end.len()) =~= end);
    let p = "@"@ + path;
    assert(p.skip(p.len() - path.len()) =~= path);
}

} // verus!
