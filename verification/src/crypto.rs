//! Per-chunk authenticated encryption, keyed from a password.
//!
//! One `SealingStream` or `OpeningStream` lives for exactly one transfer: the
//! salt and nonce are rolled fresh for every sealing context and never reused.
//! Every chunk is sealed together with a tag, `Message` for interior chunks
//! and `Finish` for the terminal one, so a receiver can tell a complete
//! stream from a truncated one.
//!
//! The cipher itself is the streaming XChaCha20-Poly1305 construction of the
//! orion crate; the library states what it relies on in the contracts of the
//! wrappers below and proves the stream discipline around those contracts.

use vstd::prelude::*;
use vstd::string::StringSliceAdditionalSpecFns;

use crate::block::copy_bytes;
use crate::metadata::EncryptionMetadata;

verus! {

/// A failure while preparing or advancing a sealing context.
#[derive(Debug, Clone, Copy, PartialEq, Eq, Structural)]
pub enum CryptoError {
    Unknown,
}

/// A failure while opening a sealed chunk stream.
#[derive(Debug, Clone, Copy, PartialEq, Eq, Structural)]
pub enum DecryptError {
    /// A chunk's authentication tag did not verify: wrong password or
    /// corrupted bytes.
    AuthenticationFailure,
    /// The stream ended before a Finish-tagged chunk was opened.
    TruncatedStream,
}

#[verifier::external_type_specification]
#[verifier::external_body]
pub struct ExStreamSealer(orion::aead::streaming::StreamSealer);

#[verifier::external_type_specification]
#[verifier::external_body]
pub struct ExStreamOpener(orion::aead::streaming::StreamOpener);

/// The identity of a sealing context: its 32-byte key followed by its
/// 24-byte stream nonce.
pub uninterp spec fn sealer_ident(s: orion::aead::streaming::StreamSealer) -> Seq<u8>;

/// The chunks a sealer has produced so far, oldest first.  Together with the
/// identity they determine the sealer's internal state exactly.
pub uninterp spec fn sealer_history(s: orion::aead::streaming::StreamSealer) -> Seq<Seq<u8>>;

/// The identity of an opening context: its 32-byte key followed by its
/// 24-byte stream nonce.
pub uninterp spec fn opener_ident(o: orion::aead::streaming::StreamOpener) -> Seq<u8>;

/// The chunks an opener has accepted so far, oldest first.
pub uninterp spec fn opener_history(o: orion::aead::streaming::StreamOpener) -> Seq<Seq<u8>>;

/// What `StreamOpener::open_chunk` returns for a context with identity
/// `ident` that has already accepted `history`: `Some((plaintext, last))`
/// when `chunk` authenticates at this position (`last` telling whether it
/// carried the Finish tag), `None` when it is rejected.  The outcome is a
/// function of these three values alone.
pub uninterp spec fn opened_chunk(ident: Seq<u8>, history: Seq<Seq<u8>>, chunk: Seq<u8>) -> Option<
    (Seq<u8>, bool),
>;

/// What `orion::kdf::derive_key` returns for this library's fixed cost
/// parameters (Argon2i, 3 iterations, 8 KiB of memory, 32-byte output): a
/// function of the password and the salt alone.
pub uninterp spec fn derived_key(password: Seq<u8>, salt: Seq<u8>) -> Seq<u8>;

/// Relies on `orion::kdf::derive_key` with this library's fixed cost
/// parameters.  It always yields 32 bytes, and fails only for an empty
/// password, a salt shorter than 8 bytes, or a password or salt of 2^32
/// bytes or more (orion's length checks reject those before any work).
#[verifier::external_body]
pub fn derive_key_from_password(password: &[u8], salt: &[u8]) -> (r: Result<Vec<u8>, CryptoError>)
    ensures
        r matches Ok(k) ==> k@ == derived_key(password@, salt@) && k@.len() == 32,
        password@.len() > 0 && password@.len() < 0x1_0000_0000 && salt@.len() >= 8 && salt@.len()
            < 0x1_0000_0000 ==> r is Ok,
{
    let run = || -> Result<Vec<u8>, orion::errors::UnknownCryptoError> {
        let pwd = orion::kdf::Password::from_slice(password)?;
        let salt = orion::kdf::Salt::from_slice(salt)?;
        let key = orion::kdf::derive_key(&pwd, &salt, 3, 8, 32)?;
        Ok(key.unprotected_as_bytes().to_vec())
    };
    run().map_err(|_| CryptoError::Unknown)
}

/// Relies on `orion::kdf::Salt::default`: a fresh, cryptographically random
/// salt of 16 bytes.  Nothing else can be said of its value.
#[verifier::external_body]
fn generate_salt() -> (r: Vec<u8>)
    ensures
        r@.len() == 16,
{
    orion::kdf::Salt::default().as_ref().to_vec()
}

/// Relies on `orion::aead::streaming::StreamSealer::new`: it accepts exactly
/// 32-byte keys, rolls a fresh random 24-byte nonce, and starts with an
/// empty chunk history.
#[verifier::external_body]
fn sealer_new_raw(key: &[u8]) -> (r: Result<
    (orion::aead::streaming::StreamSealer, Vec<u8>),
    CryptoError,
>)
    ensures
        r matches Ok(p) ==> {
            &&& sealer_ident(p.0) == key@ + p.1@
            &&& sealer_history(p.0) == Seq::<Seq<u8>>::empty()
            &&& p.1@.len() == 24
            &&& key@.len() == 32
        },
        key@.len() == 32 ==> r is Ok,
{
    let sk = match orion::aead::SecretKey::from_slice(key) {
        Ok(k) => k,
        Err(_) => {
            return Err(CryptoError::Unknown);
        },
    };
    match orion::aead::streaming::StreamSealer::new(&sk) {
        Ok((sealer, nonce)) => Ok((sealer, nonce.as_ref().to_vec())),
        Err(_) => Err(CryptoError::Unknown),
    }
}

/// Relies on `orion::aead::streaming::StreamSealer::seal_chunk`: the sealed
/// chunk is the plaintext length plus 17 bytes of tag and framing, the
/// matching opener at the same position recovers exactly the plaintext and
/// tag that were sealed, and sealing succeeds for any chunk shorter than
/// 2^32 bytes.
#[verifier::external_body]
fn seal_chunk_raw(
    s: &mut orion::aead::streaming::StreamSealer,
    plaintext: &[u8],
    last: bool,
) -> (r: Result<Vec<u8>, CryptoError>)
    ensures
        sealer_ident(*final (s)) == sealer_ident(*old(s)),
        r matches Ok(ct) ==> {
            &&& ct@.len() == plaintext@.len() + 17
            &&& sealer_history(*final (s)) == sealer_history(*old(s)).push(ct@)
            &&& opened_chunk(sealer_ident(*old(s)), sealer_history(*old(s)), ct@) == Some(
                (plaintext@, last),
            )
        },
        plaintext@.len() < 0x1_0000_0000 ==> r is Ok,
{
    let tag = if last {
        orion::aead::streaming::StreamTag::Finish
    } else {
        orion::aead::streaming::StreamTag::Message
    };
    s.seal_chunk(plaintext, &tag).map_err(|_| CryptoError::Unknown)
}

/// Relies on `orion::aead::streaming::StreamOpener::new`: it accepts exactly
/// 32-byte keys and 24-byte nonces and starts with an empty chunk history.
#[verifier::external_body]
fn opener_new_raw(key: &[u8], nonce: &[u8]) -> (r: Result<
    orion::aead::streaming::StreamOpener,
    CryptoError,
>)
    ensures
        r matches Ok(o) ==> {
            &&& opener_ident(o) == key@ + nonce@
            &&& opener_history(o) == Seq::<Seq<u8>>::empty()
            &&& key@.len() == 32
            &&& nonce@.len() == 24
        },
        key@.len() == 32 && nonce@.len() == 24 ==> r is Ok,
{
    let run = || -> Result<orion::aead::streaming::StreamOpener, orion::errors::UnknownCryptoError>
        {
        let sk = orion::aead::SecretKey::from_slice(key)?;
        let nonce = orion::aead::streaming::Nonce::from_slice(nonce)?;
        orion::aead::streaming::StreamOpener::new(&sk, &nonce)
    };
    run().map_err(|_| CryptoError::Unknown)
}

/// Relies on `orion::aead::streaming::StreamOpener::open_chunk`: it returns
/// the plaintext and tag of a chunk that authenticates at the opener's
/// current position and rejects everything else, deterministically in the
/// context identity, the accepted history and the chunk.
#[verifier::external_body]
fn open_chunk_raw(o: &mut orion::aead::streaming::StreamOpener, chunk: &[u8]) -> (r: Result<
    (Vec<u8>, bool),
    DecryptError,
>)
    ensures
        opener_ident(*final (o)) == opener_ident(*old(o)),
        match r {
            Ok(p) => {
                &&& opened_chunk(opener_ident(*old(o)), opener_history(*old(o)), chunk@) == Some(
                    (p.0@, p.1),
                )
                &&& opener_history(*final (o)) == opener_history(*old(o)).push(chunk@)
                &&& p.0@.len() + 17 == chunk@.len()
            },
            Err(e) => {
                &&& opened_chunk(opener_ident(*old(o)), opener_history(*old(o)), chunk@) is None
                &&& e == DecryptError::AuthenticationFailure
            },
        },
{
    match o.open_chunk(chunk) {
        Ok((plaintext, tag)) => {
            let last = match tag {
                orion::aead::streaming::StreamTag::Finish => true,
                _ => false,
            };
            Ok((plaintext, last))
        },
        Err(_) => Err(DecryptError::AuthenticationFailure),
    }
}

/// The sealing half of a transfer's encryption context: a fresh salt, a
/// fresh nonce, a key derived from the password, and the chunk counter the
/// underlying stream advances.  It seals the blocks of exactly one source
/// and is discarded afterwards.
pub struct SealingStream {
    inner: orion::aead::streaming::StreamSealer,
    salt: Vec<u8>,
    nonce: Vec<u8>,
    key: Ghost<Seq<u8>>,
    finished: bool,
}

impl SealingStream {
    /// Key and nonce of this context, as the opener will need them.
    pub closed spec fn ident(self) -> Seq<u8> {
        sealer_ident(self.inner)
    }

    /// The sealed chunks produced so far, oldest first.
    pub closed spec fn history(self) -> Seq<Seq<u8>> {
        sealer_history(self.inner)
    }

    pub closed spec fn key_view(self) -> Seq<u8> {
        self.key@
    }

    pub closed spec fn salt_view(self) -> Seq<u8> {
        self.salt@
    }

    pub closed spec fn nonce_view(self) -> Seq<u8> {
        self.nonce@
    }

    /// A Finish-tagged chunk has been sealed; the stream takes no more.
    pub closed spec fn is_finished(self) -> bool {
        self.finished
    }

    pub closed spec fn wf(self) -> bool {
        &&& self.ident() == self.key@ + self.nonce@
        &&& self.key@.len() == 32
        &&& self.nonce@.len() == 24
        &&& self.salt@.len() == 16
    }

    /// Seal one block.  Interior blocks carry the Message tag; the block
    /// passed with `is_last` carries Finish and closes the stream.  The
    /// sealed chunk is 17 bytes longer than the block, and the opener with
    /// the same identity and history recovers exactly this block and tag.
    pub fn seal(&mut self, block: &[u8], is_last: bool) -> (r: Vec<u8>)
        requires
            old(self).wf(),
            !old(self).is_finished(),
            block@.len() < 0x1_0000_0000,
        ensures
            final (self).wf(),
            final (self).ident() == old(self).ident(),
            final (self).key_view() == old(self).key_view(),
            final (self).salt_view() == old(self).salt_view(),
            final (self).nonce_view() == old(self).nonce_view(),
            final (self).is_finished() == is_last,
            r@.len() == block@.len() + 17,
            final (self).history() == old(self).history().push(r@),
            opened_chunk(old(self).ident(), old(self).history(), r@) == Some((block@, is_last)),
    {
        let sealed = seal_chunk_raw(&mut self.inner, block, is_last);
        match sealed {
            Ok(ct) => {
                self.finished = is_last;
                ct
            },
            Err(_) => vstd::pervasive::unreached(),
        }
    }

    /// The salt the context's key was derived with.
    pub fn salt_bytes(&self) -> (r: Vec<u8>)
        ensures
            r@ == self.salt_view(),
    {
        copy_bytes(self.salt.as_slice())
    }

    /// The stream nonce the context was created with.
    pub fn nonce_bytes(&self) -> (r: Vec<u8>)
        ensures
            r@ == self.nonce_view(),
    {
        copy_bytes(self.nonce.as_slice())
    }

    /// The externally visible subset of this context, sent along with the
    /// upload so a later download can reconstruct decryption parameters.
    pub fn into_encryption_metadata(&self, block_size: Option<u32>) -> (r: EncryptionMetadata)
        ensures
            r.attempt_decryption == true,
            r.block_size == block_size,
            r.nonce matches Some(n) && n@ == self.nonce_view(),
            r.salt matches Some(s) && s@ == self.salt_view(),
    {
        EncryptionMetadata {
            attempt_decryption: true,
            block_size,
            nonce: Some(copy_bytes(self.nonce.as_slice())),
            salt: Some(copy_bytes(self.salt.as_slice())),
        }
    }
}

/// Create a fresh sealing context from a password: a new random salt, a key
/// derived from password and salt, and a new random stream nonce.  Succeeds
/// for every non-empty password shorter than 2^32 bytes.
pub fn new_encryptor(password: &str) -> (r: Result<SealingStream, CryptoError>)
    ensures
        r matches Ok(s) ==> {
            &&& s.wf()
            &&& !s.is_finished()
            &&& s.history() == Seq::<Seq<u8>>::empty()
            &&& s.key_view() == derived_key(password.spec_bytes(), s.salt_view())
            &&& s.ident() == s.key_view() + s.nonce_view()
            &&& s.salt_view().len() == 16
            &&& s.nonce_view().len() == 24
        },
        password.spec_bytes().len() > 0 && password.spec_bytes().len() < 0x1_0000_0000 ==> r is Ok,
{
    let salt = generate_salt();
    let key = match derive_key_from_password(password.as_bytes(), salt.as_slice()) {
        Ok(k) => k,
        Err(e) => {
            return Err(e);
        },
    };
    match sealer_new_raw(key.as_slice()) {
        Ok((sealer, nonce)) => Ok(
            SealingStream {
                inner: sealer,
                salt,
                nonce,
                key: Ghost(key@),
                finished: false,
            },
        ),
        Err(e) => Err(e),
    }
}

/// The opening half of an encryption context, reconstructed from the
/// password and the salt and nonce of the transfer's metadata.  It opens the
/// sealed chunks of exactly one stream, in arrival order, and remembers
/// whether the Finish-tagged chunk has been seen.
pub struct OpeningStream {
    inner: orion::aead::streaming::StreamOpener,
    key: Ghost<Seq<u8>>,
    nonce: Vec<u8>,
    finished: bool,
    failed: bool,
}

impl OpeningStream {
    pub closed spec fn ident(self) -> Seq<u8> {
        opener_ident(self.inner)
    }

    /// The chunks accepted so far, oldest first.
    pub closed spec fn history(self) -> Seq<Seq<u8>> {
        opener_history(self.inner)
    }

    pub closed spec fn key_view(self) -> Seq<u8> {
        self.key@
    }

    pub closed spec fn nonce_view(self) -> Seq<u8> {
        self.nonce@
    }

    /// The Finish-tagged chunk has been opened; the stream is complete.
    pub closed spec fn is_finished(self) -> bool {
        self.finished
    }

    /// A chunk was rejected; the context takes no more.
    pub closed spec fn has_failed(self) -> bool {
        self.failed
    }

    pub closed spec fn wf(self) -> bool {
        &&& self.ident() == self.key@ + self.nonce@
        &&& self.key@.len() == 32
        &&& self.nonce@.len() == 24
    }

    /// Whether the Finish-tagged chunk has been opened.
    pub fn finished(&self) -> (r: bool)
        ensures
            r == self.is_finished(),
    {
        self.finished
    }

    /// Open one sealed chunk, in strict arrival order.  Returns the block
    /// that was sealed at this position, or `AuthenticationFailure` when the
    /// chunk does not verify (wrong password, corrupted or reordered bytes).
    pub fn open(&mut self, chunk: &[u8]) -> (r: Result<Vec<u8>, DecryptError>)
        requires
            old(self).wf(),
            !old(self).is_finished(),
            !old(self).has_failed(),
        ensures
            final (self).wf(),
            final (self).ident() == old(self).ident(),
            final (self).key_view() == old(self).key_view(),
            final (self).nonce_view() == old(self).nonce_view(),
            match r {
                Ok(block) => {
                    &&& opened_chunk(old(self).ident(), old(self).history(), chunk@) == Some(
                        (block@, final (self).is_finished()),
                    )
                    &&& final (self).history() == old(self).history().push(chunk@)
                    &&& !final (self).has_failed()
                    &&& block@.len() + 17 == chunk@.len()
                },
                Err(e) => {
                    &&& e == DecryptError::AuthenticationFailure
                    &&& opened_chunk(old(self).ident(), old(self).history(), chunk@) is None
                    &&& final (self).has_failed()
                },
            },
            r is Ok <==> opened_chunk(old(self).ident(), old(self).history(), chunk@) is Some,
    {
        match open_chunk_raw(&mut self.inner, chunk) {
            Ok((block, last)) => {
                self.finished = last;
                Ok(block)
            },
            Err(e) => {
                self.failed = true;
                Err(e)
            },
        }
    }

    /// Close the stream at its logical end.  If no Finish-tagged chunk was
    /// ever opened the stream was cut short: that is reported as
    /// `TruncatedStream`, distinct from an authentication failure.
    pub fn finish(self) -> (r: Result<(), DecryptError>)
        ensures
            r is Ok <==> self.is_finished(),
            r matches Err(e) ==> e == DecryptError::TruncatedStream,
    {
        if self.finished {
            Ok(())
        } else {
            Err(DecryptError::TruncatedStream)
        }
    }
}

/// Reconstruct the opening context of a transfer from the password the user
/// entered and the salt and nonce carried by the transfer's metadata.
pub fn new_decryptor(password: &str, salt: &[u8], nonce: &[u8]) -> (r: Result<
    OpeningStream,
    CryptoError,
>)
    ensures
        r matches Ok(o) ==> {
            &&& o.wf()
            &&& !o.is_finished()
            &&& !o.has_failed()
            &&& o.history() == Seq::<Seq<u8>>::empty()
            &&& o.key_view() == derived_key(password.spec_bytes(), salt@)
            &&& o.nonce_view() == nonce@
            &&& o.ident() == derived_key(password.spec_bytes(), salt@) + nonce@
        },
        password.spec_bytes().len() > 0 && password.spec_bytes().len() < 0x1_0000_0000
            && salt@.len() >= 8 && salt@.len() < 0x1_0000_0000 && nonce@.len() == 24 ==> r is Ok,
{
    let key = match derive_key_from_password(password.as_bytes(), salt) {
        Ok(k) => k,
        Err(e) => {
            return Err(e);
        },
    };
    match opener_new_raw(key.as_slice(), nonce) {
        Ok(opener) => Ok(
            OpeningStream {
                inner: opener,
                key: Ghost(key@),
                nonce: copy_bytes(nonce),
                finished: false,
                failed: false,
            },
        ),
        Err(e) => Err(e),
    }
}

/// Round-trip law: for any non-empty password shorter than 2^32 bytes (the
/// key derivation's input limit) and any non-empty sequence of blocks,
/// sealing the blocks under a fresh context and opening the sealed chunks
/// in order under the matching context succeeds and recovers exactly the
/// original blocks, with the Finish tag closing the stream.
pub fn seal_open_round_trip(password: &str, blocks: &Vec<Vec<u8>>) -> (r: Result<
    Vec<Vec<u8>>,
    CryptoError,
>)
    requires
        password.spec_bytes().len() > 0,
        password.spec_bytes().len() < 0x1_0000_0000,
        blocks@.len() > 0,
        forall|j: int| 0 <= j < blocks@.len() ==> (#[trigger] blocks@[j])@.len() < 0x1_0000_0000,
    ensures
        r is Ok,
        r matches Ok(out) ==> {
            &&& out@.len() == blocks@.len()
            &&& forall|j: int| 0 <= j < out@.len() ==> (#[trigger] out@[j])@ == blocks@[j]@
        },
{
    let n = blocks.len();
    let mut sealer = match new_encryptor(password) {
        Ok(s) => s,
        Err(_) => {
            return vstd::pervasive::unreached();
        },
    };
    let ghost ident = sealer.ident();
    let ghost key = sealer.key_view();
    let ghost salt = sealer.salt_view();
    let ghost pw = password.spec_bytes();

    let mut chunks: Vec<Vec<u8>> = Vec::new();
    let ghost mut cviews: Seq<Seq<u8>> = Seq::empty();
    let mut i: usize = 0;
    while i < n
        invariant
            0 < n == blocks@.len(),
            i <= n,
            forall|j: int| 0 <= j < n ==> (#[trigger] blocks@[j])@.len() < 0x1_0000_0000,
            sealer.wf(),
            sealer.ident() == ident,
            sealer.key_view() == key,
            sealer.salt_view() == salt,
            key == derived_key(pw, salt),
            sealer.is_finished() == (i == n),
            chunks@.len() == i,
            cviews.len() == i,
            forall|j: int| 0 <= j < i ==> (#[trigger] chunks@[j])@ == cviews[j],
            sealer.history() == cviews,
            forall|j: int|
                0 <= j < i ==> #[trigger] opened_chunk(ident, cviews.take(j), cviews[j]) == Some(
                    (blocks@[j]@, j == n - 1),
                ),
        decreases n - i,
    {
        let is_last = i + 1 == n;
        let ct = sealer.seal(blocks[i].as_slice(), is_last);
        proof {
            let prev = cviews;
            cviews = cviews.push(ct@);
            assert forall|j: int| 0 <= j < i + 1 implies #[trigger] opened_chunk(
                ident,
                cviews.take(j),
                cviews[j],
            ) == Some((blocks@[j]@, j == n - 1)) by {
                if j < i {
                    assert(cviews.take(j) =~= prev.take(j));
                    assert(cviews[j] == prev[j]);
                } else {
                    assert(cviews.take(j) =~= prev);
                }
            }
        }
        chunks.push(ct);
        i = i + 1;
    }

    let salt_v = sealer.salt_bytes();
    let nonce_v = sealer.nonce_bytes();
    let mut opener = match new_decryptor(password, salt_v.as_slice(), nonce_v.as_slice()) {
        Ok(o) => o,
        Err(_) => {
            return vstd::pervasive::unreached();
        },
    };
    assert(opener.ident() == ident);

    let mut out: Vec<Vec<u8>> = Vec::new();
    let mut i: usize = 0;
    while i < n
        invariant
            0 < n == blocks@.len(),
            i <= n,
            chunks@.len() == n,
            cviews.len() == n,
            forall|j: int| 0 <= j < n ==> (#[trigger] chunks@[j])@ == cviews[j],
            forall|j: int|
                0 <= j < n ==> #[trigger] opened_chunk(ident, cviews.take(j), cviews[j]) == Some(
                    (blocks@[j]@, j == n - 1),
                ),
            opener.wf(),
            opener.ident() == ident,
            opener.history() == cviews.take(i as int),
            opener.is_finished() == (i == n),
            !opener.has_failed(),
            out@.len() == i,
            forall|j: int| 0 <= j < i ==> (#[trigger] out@[j])@ == blocks@[j]@,
        decreases n - i,
    {
        assert(opened_chunk(ident, cviews.take(i as int), cviews[i as int]) == Some(
            (blocks@[i as int]@, i as int == n - 1),
        ));
        let block = match opener.open(chunks[i].as_slice()) {
            Ok(b) => b,
            Err(_) => {
                return vstd::pervasive::unreached();
            },
        };
        proof {
            assert(cviews.take(i as int).push(cviews[i as int]) =~= cviews.take(i + 1 as int));
        }
        out.push(block);
        i = i + 1;
    }
    match opener.finish() {
        Ok(u) => u,
        Err(_) => {
            return vstd::pervasive::unreached();
        },
    };
    Ok(out)
}

} // verus!
