use vstd::prelude::*;
use crate::text::{
    chars_eq_str, chars_of, contains_seq, contains_str, extend_str, lower_chars, lower_seq,
    string_from_chars, trim, trim_chars,
};
use vstd::utf8::{decode_utf8, valid_utf8};

verus! {

/// The result of a successful bounded asset download.
pub struct DownloadedAsset {
    pub bytes: Vec<u8>,
    pub mime_type: String,
    pub width: Option<i32>,
    pub height: Option<i32>,
}

/// The message of the error that UTF-8 decoding reports for `bytes`.
pub uninterp spec fn utf8_error_message(bytes: Seq<u8>) -> Seq<char>;

/// Calls `std::str::from_utf8`: the text of `bytes` when they are valid
/// UTF-8, else the decoder error's message (`Utf8Error`'s `Display`, which
/// depends on the bytes alone).
#[verifier::external_body]
fn utf8_text(bytes: &[u8]) -> (r: Result<&str, String>)
    ensures
        (r is Ok) == valid_utf8(bytes@),
        r matches Ok(s) ==> s@ == decode_utf8(bytes@),
        r matches Err(m) ==> m@ == utf8_error_message(bytes@),
{
    match std::str::from_utf8(bytes) {
        Ok(s) => Ok(s),
        Err(e) => Err(e.to_string()),
    }
}

pub open spec fn starts_with_bytes(b: Seq<u8>, p: Seq<u8>) -> bool {
    p.len() <= b.len() && b.subrange(0, p.len() as int) == p
}

pub open spec fn png_magic() -> Seq<u8> {
    seq![0x89u8, 0x50u8, 0x4Eu8, 0x47u8, 0x0Du8, 0x0Au8, 0x1Au8, 0x0Au8]
}

pub open spec fn jpeg_magic() -> Seq<u8> {
    seq![0xFFu8, 0xD8u8, 0xFFu8]
}

/// `GIF87a` / `GIF89a`.
pub open spec fn gif_magic(v: u8) -> Seq<u8> {
    seq![0x47u8, 0x49u8, 0x46u8, 0x38u8, v, 0x61u8]
}

/// `RIFF` .... `WEBP`.
pub open spec fn webp_ok(b: Seq<u8>) -> bool {
    b.len() >= 12 && b.subrange(0, 4) == seq![0x52u8, 0x49u8, 0x46u8, 0x46u8] && b.subrange(8, 12)
        == seq![0x57u8, 0x45u8, 0x42u8, 0x50u8]
}

/// Which signature check applies to a MIME type.
pub open spec fn image_bytes_ok(b: Seq<u8>, mime: Seq<char>) -> bool {
    if mime == "image/png"@ {
        starts_with_bytes(b, png_magic())
    } else if mime == "image/jpeg"@ || mime == "image/jpg"@ {
        starts_with_bytes(b, jpeg_magic())
    } else if mime == "image/gif"@ {
        b.len() >= 6 && (b.subrange(0, 6) == gif_magic(0x37u8) || b.subrange(0, 6) == gif_magic(
            0x39u8,
        ))
    } else if mime == "image/webp"@ {
        webp_ok(b)
    } else if mime == "image/svg+xml"@ {
        valid_utf8(b) && contains_seq(decode_utf8(b), "<svg"@)
    } else {
        false
    }
}

/// The error text for rejected bytes.
pub open spec fn image_error(b: Seq<u8>, mime: Seq<char>) -> Seq<char> {
    if b.len() == 0 {
        "Empty bytes"@
    } else if mime == "image/png"@ {
        "Invalid PNG magic bytes"@
    } else if mime == "image/jpeg"@ || mime == "image/jpg"@ {
        "Invalid JPEG magic bytes"@
    } else if mime == "image/gif"@ {
        "Invalid GIF magic bytes"@
    } else if mime == "image/webp"@ {
        "Invalid WEBP magic bytes"@
    } else if mime == "image/svg+xml"@ {
        if valid_utf8(b) {
            "SVG does not contain '<svg' tag"@
        } else {
            "Invalid UTF-8 for SVG: "@ + utf8_error_message(b)
        }
    } else {
        "Unsupported MIME type: "@ + mime
    }
}

fn bytes_prefix_eq(b: &[u8], p: &[u8], at: usize) -> (r: bool)
    ensures
        r == (at + p@.len() <= b@.len() && b@.subrange(at as int, at + p@.len()) == p@),
{
    if at > b.len() || p.len() > b.len() - at {
        return false;
    }
    let mut i: usize = 0;
    while i < p.len()
        invariant
            i <= p.len(),
            at + p.len() <= b.len(),
            forall|k: int| 0 <= k < i ==> b@[at + k] == p@[k],
        decreases p.len() - i,
    {
        if b[at + i] != p[i] {
            assert(b@.subrange(at as int, at + p@.len())[i as int] != p@[i as int]);
            return false;
        }
        i = i + 1;
    }
    assert(b@.subrange(at as int, at + p@.len()) =~= p@);
    true
}

fn text_error(t: &str) -> (r: Result<(), String>)
    ensures
        r matches Err(e) && e@ == t@,
{
    Err(crate::text::owned(t))
}

/// Validate image bytes against the signature of their MIME type.
pub fn validate_image_bytes(bytes: &[u8], mime_type: &str) -> (r: Result<(), String>)
    ensures
        r is Ok <==> (bytes@.len() > 0 && image_bytes_ok(bytes@, mime_type@)),
        r matches Err(e) ==> e@ == image_error(bytes@, mime_type@),
{
    if bytes.len() == 0 {
        return text_error("Empty bytes");
    }
    let m = chars_of(mime_type);
    if chars_eq_str(&m, "image/png") {
        let magic: [u8; 8] = [0x89, 0x50, 0x4E, 0x47, 0x0D, 0x0A, 0x1A, 0x0A];
        assert(magic@ =~= png_magic());
        if bytes_prefix_eq(bytes, &magic, 0) {
            Ok(())
        } else {
            text_error("Invalid PNG magic bytes")
        }
    } else if chars_eq_str(&m, "image/jpeg") || chars_eq_str(&m, "image/jpg") {
        let magic: [u8; 3] = [0xFF, 0xD8, 0xFF];
        assert(magic@ =~= jpeg_magic());
        if bytes_prefix_eq(bytes, &magic, 0) {
            Ok(())
        } else {
            text_error("Invalid JPEG magic bytes")
        }
    } else if chars_eq_str(&m, "image/gif") {
        let a: [u8; 6] = [0x47, 0x49, 0x46, 0x38, 0x37, 0x61];
        let b: [u8; 6] = [0x47, 0x49, 0x46, 0x38, 0x39, 0x61];
        assert(a@ =~= gif_magic(0x37u8));
        assert(b@ =~= gif_magic(0x39u8));
        if bytes.len() >= 6 && (bytes_prefix_eq(bytes, &a, 0) || bytes_prefix_eq(bytes, &b, 0)) {
            Ok(())
        } else {
            text_error("Invalid GIF magic bytes")
        }
    } else if chars_eq_str(&m, "image/webp") {
        let riff: [u8; 4] = [0x52, 0x49, 0x46, 0x46];
        let webp: [u8; 4] = [0x57, 0x45, 0x42, 0x50];
        assert(riff@ =~= seq![0x52u8, 0x49u8, 0x46u8, 0x46u8]);
        assert(webp@ =~= seq![0x57u8, 0x45u8, 0x42u8, 0x50u8]);
        if bytes.len() >= 12 && bytes_prefix_eq(bytes, &riff, 0) && bytes_prefix_eq(
            bytes,
            &webp,
            8,
        ) {
            Ok(())
        } else {
            text_error("Invalid WEBP magic bytes")
        }
    } else if chars_eq_str(&m, "image/svg+xml") {
        match utf8_text(bytes) {
            Ok(s) => {
                let c = chars_of(s);
                if contains_str(&c, "<svg") {
                    Ok(())
                } else {
                    text_error("SVG does not contain '<svg' tag")
                }
            },
            Err(detail) => {
                let mut msg: Vec<char> = Vec::new();
                extend_str(&mut msg, "Invalid UTF-8 for SVG: ");
                extend_str(&mut msg, detail.as_str());
                Err(string_from_chars(&msg))
            },
        }
    } else {
        let mut msg: Vec<char> = Vec::new();
        extend_str(&mut msg, "Unsupported MIME type: ");
        extend_str(&mut msg, mime_type);
        Err(string_from_chars(&msg))
    }
}

/// The pixel size of an image, when its format is recognized.
pub uninterp spec fn image_size_of(data: Seq<u8>) -> Option<(usize, usize)>;

/// Calls `imagesize::blob_size`: width and height read from the image
/// header, or nothing when the header is not recognized.
#[verifier::external_body]
fn image_dimensions(data: &[u8]) -> (r: Option<(usize, usize)>)
    ensures
        r == image_size_of(data@),
{
    match imagesize::blob_size(data) {
        Ok(size) => Some((size.width, size.height)),
        Err(_) => None,
    }
}

/// The MIME types an asset download accepts.
pub open spec fn accepted_mime(m: Seq<char>) -> bool {
    ||| m == "image/png"@
    ||| m == "image/jpeg"@
    ||| m == "image/gif"@
    ||| m == "image/webp"@
    ||| m == "image/svg+xml"@
}

pub fn is_accepted_mime(m: &str) -> (r: bool)
    ensures
        r == accepted_mime(m@),
{
    let c = chars_of(m);
    chars_eq_str(&c, "image/png") || chars_eq_str(&c, "image/jpeg") || chars_eq_str(
        &c,
        "image/gif",
    ) || chars_eq_str(&c, "image/webp") || chars_eq_str(&c, "image/svg+xml")
}

/// The text before the first `;`.
pub open spec fn before_semicolon(s: Seq<char>) -> Seq<char> {
    let i = crate::domain::odds::first_index_of(s, ';');
    if i < 0 {
        s
    } else {
        s.take(i)
    }
}

/// The media type of a `Content-Type` header value (its text is visible
/// ASCII): the part before any parameters, trimmed and lowercased.
pub open spec fn content_type_mime(header: Seq<char>) -> Seq<char> {
    lower_seq(trim(before_semicolon(header)))
}

pub fn mime_from_content_type(header: &str) -> (r: String)
    ensures
        r@ == content_type_mime(header@),
{
    let c = chars_of(header);
    let i = crate::domain::odds::find_char(&c, ';');
    let mut head: Vec<char> = Vec::new();
    let mut k: usize = 0;
    while k < i
        invariant
            k <= i <= c.len(),
            head@ == c@.take(k as int),
        decreases i - k,
    {
        head.push(c[k]);
        k = k + 1;
        assert(c@.take(k as int) =~= c@.take((k - 1) as int).push(c@[k - 1]));
    }
    proof {
        if i == c.len() {
            assert(c@.take(i as int) =~= c@);
        }
    }
    let t = trim_chars(&head);
    let l = lower_chars(&t);
    string_from_chars(&l)
}

/// Only image types are downloaded.
pub fn check_content_type(mime_type: &str) -> (r: Result<(), String>)
    ensures
        match r {
            Ok(()) => accepted_mime(mime_type@),
            Err(m) => !accepted_mime(mime_type@) && m@ == "Unsupported or wrong Content-Type: "@
                + mime_type@,
        },
{
    if is_accepted_mime(mime_type) {
        return Ok(());
    }
    let mut m: Vec<char> = Vec::new();
    extend_str(&mut m, "Unsupported or wrong Content-Type: ");
    extend_str(&mut m, mime_type);
    Err(string_from_chars(&m))
}

/// A reported content length must not exceed the size limit.
pub fn check_content_length(len: u64, max_size_bytes: usize) -> (r: Result<(), String>)
    ensures
        match r {
            Ok(()) => len <= max_size_bytes,
            Err(m) => len > max_size_bytes && m@ == "Content-Length "@ + crate::json::nat_text(
                len as nat,
            ) + " exceeds limit "@ + crate::json::nat_text(max_size_bytes as nat),
        },
{
    if len as u128 <= max_size_bytes as u128 {
        return Ok(());
    }
    let mut m: Vec<char> = Vec::new();
    extend_str(&mut m, "Content-Length ");
    let a = crate::json::nat_digits(len);
    crate::text::extend_chars(&mut m, &a);
    extend_str(&mut m, " exceeds limit ");
    let b = crate::json::nat_digits(max_size_bytes as u64);
    crate::text::extend_chars(&mut m, &b);
    Err(string_from_chars(&m))
}

/// The body read so far plus the next chunk must stay within the limit.
pub fn check_chunk(received: usize, chunk: usize, max_size_bytes: usize) -> (r: Result<(), String>)
    ensures
        match r {
            Ok(()) => received + chunk <= max_size_bytes,
            Err(m) => received + chunk > max_size_bytes && m@
                == "Response body size exceeded maximum limit of "@ + crate::json::nat_text(
                max_size_bytes as nat,
            ),
        },
{
    if received as u128 + chunk as u128 <= max_size_bytes as u128 {
        return Ok(());
    }
    let mut m: Vec<char> = Vec::new();
    extend_str(&mut m, "Response body size exceeded maximum limit of ");
    let b = crate::json::nat_digits(max_size_bytes as u64);
    crate::text::extend_chars(&mut m, &b);
    Err(string_from_chars(&m))
}

/// After a failed attempt: the final error once the retry budget is spent,
/// `None` while another attempt is due.
pub fn after_failed_attempt(attempt: u32, max_retries: u32, error: &str) -> (r: Option<String>)
    ensures
        match r {
            Some(m) => attempt >= max_retries && m@ == "Failed after "@ + crate::json::nat_text(
                attempt as nat,
            ) + " attempts. Last error: "@ + error@,
            None => attempt < max_retries,
        },
{
    if attempt < max_retries {
        return None;
    }
    let mut m: Vec<char> = Vec::new();
    extend_str(&mut m, "Failed after ");
    let a = crate::json::nat_digits(attempt as u64);
    crate::text::extend_chars(&mut m, &a);
    extend_str(&mut m, " attempts. Last error: ");
    extend_str(&mut m, error);
    Some(string_from_chars(&m))
}

/// Validates downloaded bytes and records their pixel size.
pub fn finish_download(bytes: Vec<u8>, mime_type: String) -> (r: Result<DownloadedAsset, String>)
    ensures
        r is Ok <==> (bytes@.len() > 0 && image_bytes_ok(bytes@, mime_type@)),
        r matches Ok(a) ==> a.bytes@ == bytes@ && a.mime_type@ == mime_type@ && match image_size_of(
            bytes@,
        ) {
            Some((w, h)) => a.width == Some(w as i32) && a.height == Some(h as i32),
            None => a.width is None && a.height is None,
        },
        r matches Err(e) ==> e@ == image_error(bytes@, mime_type@),
{
    match validate_image_bytes(&bytes, mime_type.as_str()) {
        Ok(()) => {},
        Err(e) => {
            return Err(e);
        },
    }
    let (width, height) = match image_dimensions(&bytes) {
        Some((w, h)) => (Some(w as i32), Some(h as i32)),
        None => (None, None),
    };
    Ok(DownloadedAsset { bytes, mime_type, width, height })
}

}
