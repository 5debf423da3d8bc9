use vstd::prelude::*;

verus! {

/// The failures a transfer can surface.  None of them is retried internally:
/// every variant is terminal for the affected stream or part.
#[derive(Debug, Clone, PartialEq, Eq, Structural)]
pub enum TransferError {
    /// Reading the local source failed.
    SourceIoError,
    /// A network send or receive failed.
    TransportError,
    /// A decryption tag did not verify: wrong password or corrupted bytes.
    AuthenticationFailure,
    /// Deriving the sealing key or creating the sealing context failed
    /// before any byte moved: the password was unusable (for instance
    /// empty).
    EncryptionSetupFailure,
    /// The stream ended before a Finish-tagged chunk was opened.
    TruncatedStream,
    /// Encryption was requested together with a multipart-sized source.
    UnsupportedCombination,
    /// One or more parts of a concurrent batch failed.
    PartialBatchFailure,
}

impl TransferError {
    /// A short, stable description of the failure.
    pub fn describe(&self) -> (r: &'static str)
        ensures
            r@ == self.describe_spec(),
    {
        match self {
            TransferError::SourceIoError => "error occured while reading the source!",
            TransferError::TransportError => "error occured while talking to the server!",
            TransferError::AuthenticationFailure => "error occured while decrypting!",
            TransferError::EncryptionSetupFailure => "error occured while setting up encryption!",
            TransferError::TruncatedStream => "stream ended before its final chunk!",
            TransferError::UnsupportedCombination => {
                "currently, uploading encrypted files of multipart size is not supported!"
            },
            TransferError::PartialBatchFailure => "some parts failed to upload!",
        }
    }

    pub open spec fn describe_spec(&self) -> Seq<char> {
        match self {
            TransferError::SourceIoError => "error occured while reading the source!"@,
            TransferError::TransportError => "error occured while talking to the server!"@,
            TransferError::AuthenticationFailure => "error occured while decrypting!"@,
            TransferError::EncryptionSetupFailure => "error occured while setting up encryption!"@,
            TransferError::TruncatedStream => "stream ended before its final chunk!"@,
            TransferError::UnsupportedCombination => {
                "currently, uploading encrypted files of multipart size is not supported!"@
            },
            TransferError::PartialBatchFailure => "some parts failed to upload!"@,
        }
    }
}

} // verus!
