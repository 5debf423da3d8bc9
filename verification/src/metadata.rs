//! The serializable shapes exchanged with the server.  Timestamps travel as
//! seconds since the Unix epoch; the edge that speaks to the server formats
//! them.

use vstd::prelude::*;

verus! {

/// The externally visible subset of an encryption context, transmitted with
/// an upload so a later download can reconstruct decryption parameters.
/// `attempt_decryption == false` marks unencrypted or pre-compressed
/// (archive) content.
#[derive(Debug, Clone)]
pub struct EncryptionMetadata {
    pub attempt_decryption: bool,
    pub nonce: Option<Vec<u8>>,
    pub salt: Option<Vec<u8>>,
    /// Bytes read, sealed and uploaded at once: the read-buffer size, needed
    /// for buffered decryption of the incoming stream.
    pub block_size: Option<u32>,
}

impl EncryptionMetadata {
    /// The metadata of an archive upload: the file carries its own
    /// password protection, so no decryption is attempted on download.
    pub fn default_zipfile() -> (r: Self)
        ensures
            r.attempt_decryption == false,
            r.nonce is None,
            r.salt is None,
            r.block_size is None,
    {
        Self { attempt_decryption: false, nonce: None, salt: None, block_size: None }
    }
}

/// File-level metadata submitted with a blob upload.
#[derive(Debug, Clone)]
pub struct UploadBlobMetadata {
    pub name: String,
    pub content_type: Option<String>,
    pub is_public: bool,
    pub encryption: Option<EncryptionMetadata>,
    pub cache_max_age_seconds: Option<u64>,
    pub dir_path: String,
    pub force_write: bool,
    /// Expiry instant in seconds since the Unix epoch, if the upload is
    /// scheduled for deletion.
    pub deleted_at: Option<i64>,
}

/// A remote file as the server describes it.  Timestamps are seconds since
/// the Unix epoch.
#[derive(Debug, Clone)]
pub struct FsFile {
    pub name: String,
    pub storage_id: String,
    pub content_type: Option<String>,
    pub cache_max_age_seconds: u64,
    pub file_system_id: String,
    pub dir_id: String,
    pub file_size: usize,
    pub encryption: Option<EncryptionMetadata>,
    pub is_public: bool,
    pub created_at: i64,
    pub updated_at: i64,
    pub deleted_at: Option<i64>,
}

/// The server's response envelope: a message, the payload when the call
/// succeeded, and an error description when it did not.
pub struct ApiResponse<T> {
    pub message: String,
    pub data: Option<T>,
    pub error: Option<String>,
}

/// File-level metadata of a single-blob upload request.
#[derive(Debug, Clone)]
pub struct UploadSingleBlogMetadata {
    pub is_public: bool,
    pub is_encrypted: bool,
    pub file_type: String,
    pub dir_path: String,
    pub name: Option<String>,
    pub force_write: bool,
}

} // verus!
