use vstd::prelude::*;
use crate::digest::sha256_digest;
use crate::text::{chars_eq_str, chars_of, extend_str, hex_bytes, is_ascii_alnum, string_from_chars};

verus! {

/// SHA-256 of the bytes as lowercase hex.
pub fn calculate_sha256(bytes: &[u8]) -> (r: String)
    ensures
        r@ == hex_bytes(sha256_digest(bytes@)),
{
    crate::digest::sha256_hex(bytes)
}

pub open spec fn extension_for(mime: Seq<char>) -> Seq<char> {
    if mime == "image/png"@ {
        "png"@
    } else if mime == "image/jpeg"@ || mime == "image/jpg"@ {
        "jpg"@
    } else if mime == "image/gif"@ {
        "gif"@
    } else if mime == "image/webp"@ {
        "webp"@
    } else if mime == "image/svg+xml"@ {
        "svg"@
    } else {
        "bin"@
    }
}

/// Map a MIME type to a file extension.
pub fn mime_to_extension(mime_type: &str) -> (r: &'static str)
    ensures
        r@ == extension_for(mime_type@),
{
    let m = chars_of(mime_type);
    if chars_eq_str(&m, "image/png") {
        "png"
    } else if chars_eq_str(&m, "image/jpeg") || chars_eq_str(&m, "image/jpg") {
        "jpg"
    } else if chars_eq_str(&m, "image/gif") {
        "gif"
    } else if chars_eq_str(&m, "image/webp") {
        "webp"
    } else if chars_eq_str(&m, "image/svg+xml") {
        "svg"
    } else {
        "bin"
    }
}

/// A safe single path component: non-empty, not `.` or `..`, and made of
/// ASCII letters, digits, `.`, `_` and `-` only.
pub open spec fn safe_component(v: Seq<char>) -> bool {
    &&& v.len() > 0
    &&& v != "."@
    &&& v != ".."@
    &&& forall|i: int|
        0 <= i < v.len() ==> is_ascii_alnum(#[trigger] v[i]) || v[i] == '.' || v[i] == '_' || v[i]
            == '-'
}

fn component_chars_ok(v: &[char]) -> (r: bool)
    ensures
        r == (forall|i: int|
            0 <= i < v@.len() ==> is_ascii_alnum(#[trigger] v@[i]) || v@[i] == '.' || v@[i] == '_'
                || v@[i] == '-'),
{
    let mut i: usize = 0;
    while i < v.len()
        invariant
            i <= v.len(),
            forall|k: int|
                0 <= k < i ==> is_ascii_alnum(#[trigger] v@[k]) || v@[k] == '.' || v@[k] == '_'
                    || v@[k] == '-',
        decreases v.len() - i,
    {
        let c = v[i];
        let ok = ('0' <= c && c <= '9') || ('a' <= c && c <= 'z') || ('A' <= c && c <= 'Z') || c
            == '.' || c == '_' || c == '-';
        if !ok {
            return false;
        }
        i = i + 1;
    }
    true
}

/// Rejects anything but a safe single path component, naming the component
/// in the error (`Invalid {label} path component`).
pub fn validate_component(value: &str, label: &str) -> (r: Result<(), String>)
    ensures
        r is Ok <==> safe_component(value@),
        r matches Err(e) ==> e@ == "Invalid "@ + label@ + " path component"@,
{
    let v = chars_of(value);
    if v.len() == 0 || chars_eq_str(&v, ".") || chars_eq_str(&v, "..") || !component_chars_ok(&v) {
        let mut e: Vec<char> = Vec::new();
        extend_str(&mut e, "Invalid ");
        extend_str(&mut e, label);
        extend_str(&mut e, " path component");
        return Err(string_from_chars(&e));
    }
    Ok(())
}

/// The storage key of a published asset: `{entity_type}/{entity_id}/{hash}.{ext}`.
pub open spec fn storage_key_of(
    entity_type: Seq<char>,
    entity_id: Seq<char>,
    hash: Seq<char>,
    ext: Seq<char>,
) -> Seq<char> {
    entity_type + "/"@ + entity_id + "/"@ + hash + "."@ + ext
}

pub fn storage_key(entity_type: &str, entity_id: &str, hash: &str, ext: &str) -> (r: String)
    ensures
        r@ == storage_key_of(entity_type@, entity_id@, hash@, ext@),
{
    let mut v: Vec<char> = Vec::new();
    extend_str(&mut v, entity_type);
    extend_str(&mut v, "/");
    extend_str(&mut v, entity_id);
    extend_str(&mut v, "/");
    extend_str(&mut v, hash);
    extend_str(&mut v, ".");
    extend_str(&mut v, ext);
    string_from_chars(&v)
}

/// The asset id of content with the given hash: `asset-{hash}`.
pub fn asset_id_for(content_hash: &str) -> (r: String)
    ensures
        r@ == "asset-"@ + content_hash@,
{
    let mut v: Vec<char> = Vec::new();
    extend_str(&mut v, "asset-");
    extend_str(&mut v, content_hash);
    string_from_chars(&v)
}

/// Checks every component of a publish request before any file is touched.
pub fn validate_publish_components(
    entity_type: &str,
    entity_id: &str,
    hash: &str,
    ext: &str,
) -> (r: Result<(), String>)
    ensures
        r is Ok <==> (safe_component(entity_type@) && safe_component(entity_id@) && safe_component(
            hash@,
        ) && safe_component(ext@)),
        r matches Err(e) ==> e@ == "Invalid "@ + (if !safe_component(entity_type@) {
            "entity type"@
        } else if !safe_component(entity_id@) {
            "entity id"@
        } else if !safe_component(hash@) {
            "content hash"@
        } else {
            "extension"@
        }) + " path component"@,
{
    validate_component(entity_type, "entity type")?;
    validate_component(entity_id, "entity id")?;
    validate_component(hash, "content hash")?;
    validate_component(ext, "extension")?;
    Ok(())
}

/// Whether an already published file may be reused for new content: the
/// same hash and the same bytes.
pub fn existing_asset_matches(existing: &[u8], hash: &str, bytes: &[u8]) -> (r: bool)
    ensures
        r == (hex_bytes(sha256_digest(existing@)) == hash@ && existing@ == bytes@),
{
    let h = calculate_sha256(existing);
    if !crate::text::str_eq(h.as_str(), hash) {
        return false;
    }
    if existing.len() != bytes.len() {
        return false;
    }
    let mut i: usize = 0;
    while i < existing.len()
        invariant
            i <= existing.len(),
            existing.len() == bytes.len(),
            forall|k: int| 0 <= k < i ==> existing@[k] == bytes@[k],
        decreases existing.len() - i,
    {
        if existing[i] != bytes[i] {
            return false;
        }
        i = i + 1;
    }
    assert(existing@ =~= bytes@);
    true
}

/// The file name of a published asset: `{hash}.{ext}`.
pub fn asset_file_name(hash: &str, ext: &str) -> (r: String)
    ensures
        r@ == hash@ + "."@ + ext@,
{
    let mut v: Vec<char> = Vec::new();
    extend_str(&mut v, hash);
    extend_str(&mut v, ".");
    extend_str(&mut v, ext);
    string_from_chars(&v)
}

/// The unique name of a temporary upload: `tmp_{type}_{id}_{unique}`.
pub fn temporary_asset_name(entity_type: &str, entity_id: &str, unique: &str) -> (r: String)
    ensures
        r@ == "tmp_"@ + entity_type@ + "_"@ + entity_id@ + "_"@ + unique@,
{
    let mut v: Vec<char> = Vec::new();
    extend_str(&mut v, "tmp_");
    extend_str(&mut v, entity_type);
    extend_str(&mut v, "_");
    extend_str(&mut v, entity_id);
    extend_str(&mut v, "_");
    extend_str(&mut v, unique);
    string_from_chars(&v)
}

}
