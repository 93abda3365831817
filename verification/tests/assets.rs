use earnscore::assets::download::{
    after_failed_attempt, check_chunk, check_content_length, check_content_type, finish_download,
    is_accepted_mime, mime_from_content_type, validate_image_bytes,
};
use earnscore::assets::store::{
    asset_file_name, asset_id_for, calculate_sha256, existing_asset_matches, mime_to_extension,
    storage_key, temporary_asset_name, validate_component, validate_publish_components,
};
use earnscore::assets::{download_permits, AssetWorkerConfig};
use earnscore::digest::{md5_hex, sha256_hex};

const PNG_3X2: [u8; 68] = [
    0x89, 0x50, 0x4e, 0x47, 0x0d, 0x0a, 0x1a, 0x0a, 0x00, 0x00, 0x00, 0x0d, 0x49, 0x48, 0x44,
    0x52, 0x00, 0x00, 0x00, 0x03, 0x00, 0x00, 0x00, 0x02, 0x08, 0x06, 0x00, 0x00, 0x00, 0x9d,
    0x74, 0x66, 0x1a, 0x00, 0x00, 0x00, 0x0b, 0x49, 0x44, 0x41, 0x54, 0x78, 0x9c, 0x63, 0x60,
    0xc0, 0x05, 0x00, 0x00, 0x1a, 0x00, 0x01, 0xbc, 0x3c, 0xe0, 0x41, 0x00, 0x00, 0x00, 0x00,
    0x49, 0x45, 0x4e, 0x44, 0xae, 0x42, 0x60, 0x82,
];

#[test]
fn image_signatures_are_checked_per_type() {
    assert!(validate_image_bytes(&PNG_3X2, "image/png").is_ok());
    assert_eq!(validate_image_bytes(&[], "image/png").err().unwrap(), "Empty bytes");
    assert_eq!(
        validate_image_bytes(&[1, 2, 3], "image/png").err().unwrap(),
        "Invalid PNG magic bytes"
    );
    assert!(validate_image_bytes(&[0xff, 0xd8, 0xff, 0x00], "image/jpeg").is_ok());
    assert!(validate_image_bytes(b"GIF89a....", "image/gif").is_ok());
    assert!(validate_image_bytes(b"RIFF0000WEBPVP8 ", "image/webp").is_ok());
    assert!(validate_image_bytes(b"<?xml?><svg></svg>", "image/svg+xml").is_ok());
    assert_eq!(
        validate_image_bytes(b"<html>", "image/svg+xml").err().unwrap(),
        "SVG does not contain '<svg' tag"
    );
    let bad = validate_image_bytes(&[0xff, 0xfe], "image/svg+xml").err().unwrap();
    assert!(bad.starts_with("Invalid UTF-8 for SVG: "));
    assert!(bad.len() > "Invalid UTF-8 for SVG: ".len());
    assert_eq!(
        validate_image_bytes(b"x", "text/html").err().unwrap(),
        "Unsupported MIME type: text/html"
    );
}

#[test]
fn finished_download_reads_image_size() {
    let a = finish_download(PNG_3X2.to_vec(), "image/png".into()).ok().unwrap();
    assert_eq!((a.width, a.height), (Some(3), Some(2)));
    assert_eq!(a.bytes.len(), 68);
    let svg = finish_download(b"<svg></svg>".to_vec(), "image/svg+xml".into()).ok().unwrap();
    assert_eq!(svg.mime_type, "image/svg+xml");
    assert!(finish_download(vec![], "image/png".into()).is_err());
}

#[test]
fn download_limits() {
    assert_eq!(mime_from_content_type(" Image/PNG ; charset=x"), "image/png");
    assert!(is_accepted_mime("image/webp"));
    assert!(!is_accepted_mime("image/jpg"));
    assert!(check_content_type("image/png").is_ok());
    assert_eq!(
        check_content_type("text/html").err().unwrap(),
        "Unsupported or wrong Content-Type: text/html"
    );
    assert!(check_content_length(10, 10).is_ok());
    assert_eq!(
        check_content_length(11, 10).err().unwrap(),
        "Content-Length 11 exceeds limit 10"
    );
    assert!(check_chunk(5, 5, 10).is_ok());
    assert_eq!(
        check_chunk(5, 6, 10).err().unwrap(),
        "Response body size exceeded maximum limit of 10"
    );
    assert_eq!(after_failed_attempt(1, 3, "timeout"), None);
    assert_eq!(
        after_failed_attempt(3, 3, "timeout").as_deref(),
        Some("Failed after 3 attempts. Last error: timeout")
    );
    let config = AssetWorkerConfig::default();
    assert_eq!(download_permits(&config), 3);
    assert_eq!(config.max_size_bytes, 10 * 1024 * 1024);
    assert_eq!(config.download_delay, std::time::Duration::from_millis(500));
    assert_eq!(config.timeout, std::time::Duration::from_secs(10));
    assert_eq!(config.retry_delay, std::time::Duration::from_secs(2));
    let none = AssetWorkerConfig { concurrency_limit: 0, ..AssetWorkerConfig::default() };
    assert_eq!(download_permits(&none), 1);
}

#[test]
fn content_addressed_storage_names() {
    let h = calculate_sha256(b"abc");
    assert_eq!(h, "ba7816bf8f01cfea414140de5dae2223b00361a396177a9cb410ff61f20015ad");
    assert_eq!(sha256_hex(b"abc"), h);
    assert_eq!(md5_hex(b"abc"), "900150983cd24fb0d6963f7d28e17f72");
    assert_eq!(mime_to_extension("image/jpeg"), "jpg");
    assert_eq!(mime_to_extension("application/x"), "bin");
    assert_eq!(storage_key("team", "t1", "ab", "png"), "team/t1/ab.png");
    assert_eq!(asset_id_for("ab"), "asset-ab");
    assert_eq!(asset_file_name("ab", "png"), "ab.png");
    assert_eq!(temporary_asset_name("team", "t1", "u"), "tmp_team_t1_u");
    assert!(validate_component("t-1_a.b", "entity_id").is_ok());
    assert_eq!(
        validate_component("..", "entity_id").err().unwrap(),
        "Invalid entity_id path component"
    );
    assert!(validate_component("a/b", "entity_id").is_err());
    assert!(validate_publish_components("team", "t1", "ab", "png").is_ok());
    assert!(validate_publish_components("team", "", "ab", "png").is_err());
    assert!(existing_asset_matches(b"abc", &h, b"abc"));
    assert!(!existing_asset_matches(b"abc", &h, b"abd"));
}

#[test]
fn publish_components_name_the_first_bad_one() {
    assert_eq!(
        validate_publish_components("team", "", "ab", "png").err().unwrap(),
        "Invalid entity id path component"
    );
    assert_eq!(
        validate_publish_components("..", "x/y", "ab", "png").err().unwrap(),
        "Invalid entity type path component"
    );
    assert_eq!(
        validate_publish_components("team", "t1", "a b", ".").err().unwrap(),
        "Invalid content hash path component"
    );
    assert_eq!(
        validate_publish_components("team", "t1", "ab", "").err().unwrap(),
        "Invalid extension path component"
    );
}
