//! The upload side of a transfer: per-transfer options, the decisions taken
//! before any byte moves, and the sealing of a block stream.
//!
//! What happens afterwards — opening the source, sending bodies, the
//! multipart calls — is network work that the edges drive with the
//! `ConcurrentUploader` and `BlockReader` state machines.

use vstd::prelude::*;
use vstd::string::StringSliceAdditionalSpecFns;

use crate::constants::{FILE_STREAM_READ_BUF_SIZE, MP_CHUNK_SIZE};
use crate::crypto::{new_encryptor, opened_chunk, SealingStream};
use crate::errors::TransferError;
use crate::metadata::{EncryptionMetadata, UploadBlobMetadata};
use crate::plan::{plan, UploadPlan};

verus! {

/// How one file is to be uploaded.
pub struct UploadFileOpts {
    pub upload_filepath: String,
    /// The file is read and sealed block by block under a key derived from
    /// this password.
    pub password: Option<String>,
    /// The file is an archive that carries its own protection: no sealing,
    /// and no decryption attempted on download.
    pub is_zip_file: bool,
    pub file_stream_read_buf_size: u32,
}

impl UploadFileOpts {
    /// Options for one upload, with the default read-buffer size.
    pub fn new(upload_filepath: String, password: Option<String>) -> (r: Self)
        ensures
            r.upload_filepath == upload_filepath,
            r.password == password,
            r.is_zip_file == false,
            r.file_stream_read_buf_size == FILE_STREAM_READ_BUF_SIZE,
    {
        Self {
            upload_filepath,
            password,
            is_zip_file: false,
            file_stream_read_buf_size: FILE_STREAM_READ_BUF_SIZE,
        }
    }

    /// Whether this upload seals its blocks: a password was given and the
    /// content is not a self-protected archive.
    pub open spec fn spec_encrypting(self) -> bool {
        self.password is Some && !self.is_zip_file
    }
}

/// Everything decided before the first byte moves: the metadata to send,
/// the transfer plan, and the sealing context when the upload encrypts.
pub struct PreparedUpload {
    pub metadata: UploadBlobMetadata,
    pub plan: UploadPlan,
    pub encryptor: Option<SealingStream>,
}

/// Decide one upload: derive the sealing context when a password was given,
/// fill in the encryption metadata, and choose between a single-stream and
/// a multipart transfer.  Fails with `UnsupportedCombination`, before any
/// network call and before any key is derived, exactly when encryption is
/// requested for a source at or above the multipart threshold: concurrent
/// parts cannot share one sealing context's chunk counter.  Fails with
/// `EncryptionSetupFailure` when the sealing context cannot be created,
/// which the key derivation's own limits confine to an unusable password
/// (empty, or of 2^32 bytes or more).
pub fn prepare_upload(
    upload_metadata: UploadBlobMetadata,
    opts: &UploadFileOpts,
    total_len: u64,
) -> (r: Result<PreparedUpload, TransferError>)
    ensures
        r matches Ok(p) ==> {
            &&& p.plan == UploadPlan::Simple <==> total_len < MP_CHUNK_SIZE
            &&& (p.plan matches UploadPlan::Multipart { chunk_size, part_count } ==> {
                &&& total_len >= MP_CHUNK_SIZE
                &&& chunk_size == MP_CHUNK_SIZE
                &&& part_count == crate::plan::spec_part_count(total_len, MP_CHUNK_SIZE)
            })
            &&& (p.encryptor is Some <==> opts.spec_encrypting())
            &&& (p.encryptor matches Some(s) ==> {
                &&& s.wf()
                &&& !s.is_finished()
                &&& s.history() == Seq::<Seq<u8>>::empty()
                &&& p.metadata.encryption matches Some(e) && e.attempt_decryption && (
                e.salt matches Some(sv) && sv@ == s.salt_view()) && (e.nonce matches Some(nv)
                    && nv@ == s.nonce_view()) && e.block_size == Some(
                    opts.file_stream_read_buf_size,
                )
            })
            &&& (opts.password is None ==> p.metadata.encryption is None)
            &&& (opts.password is Some && opts.is_zip_file ==> (
            p.metadata.encryption matches Some(e) && !e.attempt_decryption))
            &&& p.metadata.name == upload_metadata.name
            &&& p.metadata.dir_path == upload_metadata.dir_path
            &&& p.metadata.is_public == upload_metadata.is_public
            &&& p.metadata.force_write == upload_metadata.force_write
            &&& p.metadata.content_type == upload_metadata.content_type
            &&& p.metadata.cache_max_age_seconds == upload_metadata.cache_max_age_seconds
            &&& p.metadata.deleted_at == upload_metadata.deleted_at
        },
        r == Err::<PreparedUpload, TransferError>(TransferError::UnsupportedCombination) <==> (
        opts.spec_encrypting() && total_len >= MP_CHUNK_SIZE),
        r == Err::<PreparedUpload, TransferError>(TransferError::EncryptionSetupFailure) ==> (
        opts.spec_encrypting() && total_len < MP_CHUNK_SIZE),
        r matches Err(e) ==> (e == TransferError::UnsupportedCombination || e
            == TransferError::EncryptionSetupFailure),
        !(opts.spec_encrypting() && total_len >= MP_CHUNK_SIZE) && (opts.password matches Some(pw)
            ==> vstd::utf8::encode_utf8(pw@).len() > 0 && vstd::utf8::encode_utf8(pw@).len()
                < 0x1_0000_0000) ==> r is Ok,
{
    let mut metadata = upload_metadata;
    let encryptor: Option<SealingStream>;
    match &opts.password {
        None => {
            encryptor = None;
            metadata.encryption = None;
        },
        Some(pw) => {
            if opts.is_zip_file {
                encryptor = None;
                metadata.encryption = Some(EncryptionMetadata::default_zipfile());
            } else {
                if total_len >= MP_CHUNK_SIZE {
                    return Err(TransferError::UnsupportedCombination);
                }
                let sealer = match new_encryptor(pw.as_str()) {
                    Ok(s) => s,
                    Err(_) => {
                        return Err(TransferError::EncryptionSetupFailure);
                    },
                };
                metadata.encryption = Some(
                    sealer.into_encryption_metadata(Some(opts.file_stream_read_buf_size)),
                );
                encryptor = Some(sealer);
            }
        },
    }
    let chosen = match plan(
        Some(total_len),
        MP_CHUNK_SIZE,
        match &encryptor {
            Some(_) => true,
            None => false,
        },
    ) {
        Ok(p) => p,
        Err(e) => {
            return Err(e);
        },
    };
    Ok(PreparedUpload { metadata, plan: chosen, encryptor })
}

/// Seal the blocks of one source, in order, under one fresh context: every
/// block but the last carries the Message tag, the last carries Finish.
/// Each sealed chunk opens back, at its position, to exactly the block that
/// went in.
pub fn seal_blocks(sealer: &mut SealingStream, blocks: &Vec<Vec<u8>>) -> (out: Vec<Vec<u8>>)
    requires
        old(sealer).wf(),
        !old(sealer).is_finished(),
        old(sealer).history() == Seq::<Seq<u8>>::empty(),
        blocks@.len() > 0,
        forall|j: int| 0 <= j < blocks@.len() ==> (#[trigger] blocks@[j])@.len() < 0x1_0000_0000,
    ensures
        final (sealer).wf(),
        final (sealer).is_finished(),
        final (sealer).ident() == old(sealer).ident(),
        final (sealer).salt_view() == old(sealer).salt_view(),
        final (sealer).nonce_view() == old(sealer).nonce_view(),
        out@.len() == blocks@.len(),
        forall|j: int|
            0 <= j < out@.len() ==> (#[trigger] out@[j])@.len() == blocks@[j]@.len() + 17,
        final (sealer).history() == out@.map_values(|v: Vec<u8>| v@),
        forall|j: int| 0 <= j < out@.len() ==> (#[trigger] out@[j])@ == final (sealer).history()[j],
        forall|j: int|
            0 <= j < blocks@.len() ==> #[trigger] opened_chunk(
                old(sealer).ident(),
                final (sealer).history().take(j),
                final (sealer).history()[j],
            ) == Some((blocks@[j]@, j == blocks@.len() - 1)),
{
    let n = blocks.len();
    let ghost ident = sealer.ident();
    let mut out: Vec<Vec<u8>> = Vec::new();
    let ghost mut cviews: Seq<Seq<u8>> = Seq::empty();
    let mut i: usize = 0;
    while i < n
        invariant
            0 < n == blocks@.len(),
            i <= n,
            forall|j: int| 0 <= j < n ==> (#[trigger] blocks@[j])@.len() < 0x1_0000_0000,
            sealer.wf(),
            sealer.ident() == ident,
            ident == old(sealer).ident(),
            sealer.salt_view() == old(sealer).salt_view(),
            sealer.nonce_view() == old(sealer).nonce_view(),
            sealer.is_finished() == (i == n),
            out@.len() == i,
            cviews.len() == i,
            forall|j: int| 0 <= j < i ==> (#[trigger] out@[j])@ == cviews[j],
            forall|j: int| 0 <= j < i ==> (#[trigger] out@[j])@.len() == blocks@[j]@.len() + 17,
            sealer.history() == cviews,
            forall|j: int|
                0 <= j < i ==> #[trigger] opened_chunk(ident, cviews.take(j), cviews[j]) == Some(
                    (blocks@[j]@, j == n - 1),
                ),
        decreases n - i,
    {
        let is_last = i + 1 == n;
        let ct = sealer.seal(blocks[i].as_slice(), is_last);
        proof {
            let prev = cviews;
            cviews = cviews.push(ct@);
            assert forall|j: int| 0 <= j < i + 1 implies #[trigger] opened_chunk(
                ident,
                cviews.take(j),
                cviews[j],
            ) == Some((blocks@[j]@, j == n - 1)) by {
                if j < i {
                    assert(cviews.take(j) =~= prev.take(j));
                    assert(cviews[j] == prev[j]);
                } else {
                    assert(cviews.take(j) =~= prev);
                }
            }
        }
        out.push(ct);
        i = i + 1;
    }
    proof {
        assert(out@.map_values(|v: Vec<u8>| v@) =~= cviews);
    }
    out
}

} // verus!
