use vstd::prelude::*;

verus! {

/// An in-memory only image candidate: a source URL and its owner.  It is
/// never serialized, so the URL cannot reach the database or a log.
pub struct AssetCandidate {
    pub url: String,
    pub dataset_id: String,
    pub entity_type: String,
    pub entity_id: String,
    pub role: String,
}

/// Metadata stored in the local SQLite database for ready assets.
#[derive(Debug, Clone)]
pub struct AssetMetadata {
    pub asset_id: String,
    pub content_hash: String,
    pub storage_key: String,
    pub mime_type: Option<String>,
    pub byte_size: i64,
    pub width: Option<i32>,
    pub height: Option<i32>,
    pub status: String,
    pub created_at: String,
    pub updated_at: String,
    pub provenance: String,
}

}
