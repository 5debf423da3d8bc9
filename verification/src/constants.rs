use vstd::prelude::*;

verus! {

/// Length of a generated random file name, extension excluded.
pub const RANDOM_FILENAME_LEN: usize = 24;

/// Prefix of locally saved access-token tags that were never named.
pub const UNTITLED_TAG_PREFX: &'static str = "untitled_";

/// Tag under which the root access token is stored.
pub const ROOT_ACCESS_TOKEN_TAG: &'static str = "login";

/// Format in which local timestamps are displayed.
pub const LOCAL_DATETIME_FORMAT: &'static str = "%Y-%m-%d %H:%M:%S";

/// Bytes read, sealed and uploaded at once: the read-buffer size.
pub const FILE_STREAM_READ_BUF_SIZE: u32 = 256 * 1024;

/// Header that carries the upload metadata of a blob upload.
pub const HEADER_UPLOAD_METADATA: &'static str = "upload-metadata";

/// Size threshold, and chunk size, of a multipart upload.
pub const MP_CHUNK_SIZE: u64 = 100 * 1024 * 1024;

/// How many parts of a multipart upload run at a time.
pub const MP_CONCURRENT_PARTS: usize = 5;

/// Extension assumed for files whose type is unknown.
pub const UNKNOWN_FILE_EXT: &'static str = "bin";

/// MIME type assumed for files whose type is unknown.
pub const UNKNOWN_MIME_TYPE: &'static str = "application/octet-stream";

/// MIME type of a zip archive.
pub const ZIPFILE_MIME_TYPE: &'static str = "application/zip";

/// Error code the server returns for a path that already exists.
pub const API_ERR_ALREADY_EXISTS: &'static str = "ERR_ALREADY_EXISTS";

/// Framing and authentication bytes a sealed chunk adds to its block.
pub const ENCRYPTION_OVERHEAD: u32 = 17;

} // verus!
