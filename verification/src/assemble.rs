//! Re-windowing of a downloaded byte stream into decryption blocks, and the
//! decryption pipeline around it.
//!
//! The network hands over chunks whose sizes are set by transport framing,
//! not by the original encryption blocking.  A `DownloadAssembler` buffers
//! them and slices off `window_size`-sized windows in order; a window is
//! held back until bytes beyond it arrive, so the final, possibly short,
//! window is emitted at stream end.  A `Downloader` feeds each window to the
//! opening cipher in strict arrival order, or passes bytes straight through
//! when the transfer's metadata says no decryption should be attempted.

use vstd::prelude::*;
use vstd::string::StringSliceAdditionalSpecFns;

use crate::block::{block_seq, copy_bytes, lemma_block_seq_of_layout};
use crate::constants::{ENCRYPTION_OVERHEAD, FILE_STREAM_READ_BUF_SIZE};
use crate::crypto::{new_decryptor, opened_chunk, CryptoError, DecryptError, OpeningStream};
use crate::metadata::EncryptionMetadata;

verus! {

/// The windows of a byte stream under window size `w`: `ceil(len / w)`
/// slices in order, all of exactly `w` bytes but the last, which holds what
/// remains.  An empty stream has no windows.
pub open spec fn window_seq(s: Seq<u8>, w: nat) -> Seq<Seq<u8>> {
    if s.len() == 0 {
        Seq::empty()
    } else {
        block_seq(s, w)
    }
}

/// Accumulates incoming network chunks and emits full windows in order,
/// retaining any remainder; memory use is bounded by one window plus one
/// network chunk, not by the stream.
pub struct DownloadAssembler {
    window_size: usize,
    pending: Vec<u8>,
    emitted: Ghost<Seq<Seq<u8>>>,
    consumed: Ghost<Seq<u8>>,
    finished: bool,
}

impl DownloadAssembler {
    /// Every byte this assembler has been fed, in order.
    pub closed spec fn consumed(self) -> Seq<u8> {
        self.consumed@
    }

    /// The windows handed out so far, in stream order (the final one
    /// included once `flush` has run).
    pub closed spec fn emitted(self) -> Seq<Seq<u8>> {
        self.emitted@
    }

    pub closed spec fn spec_window_size(self) -> nat {
        self.window_size as nat
    }

    /// Bytes consumed but not yet emitted as a window: the withheld tail of
    /// the stream, never longer than one window.
    pub closed spec fn spec_pending(self) -> Seq<u8> {
        self.pending@
    }

    /// The final window has been emitted; the assembler takes no more bytes.
    pub closed spec fn is_finished(self) -> bool {
        self.finished
    }

    pub closed spec fn wf(self) -> bool {
        &&& self.window_size > 0
        &&& !self.finished ==> {
            &&& self.pending@.len() <= self.window_size
            &&& self.emitted@.len() > 0 ==> self.pending@.len() > 0
            &&& forall|j: int|
                0 <= j < self.emitted@.len() ==> (#[trigger] self.emitted@[j]).len()
                    == self.window_size
            &&& self.emitted@.flatten() + self.pending@ == self.consumed@
        }
    }

    /// A fresh assembler for one download.
    pub fn new(window_size: usize) -> (r: DownloadAssembler)
        requires
            window_size > 0,
        ensures
            r.wf(),
            !r.is_finished(),
            r.consumed() == Seq::<u8>::empty(),
            r.emitted() == Seq::<Seq<u8>>::empty(),
            r.spec_pending() == Seq::<u8>::empty(),
            r.spec_window_size() == window_size,
    {
        let r = DownloadAssembler {
            window_size,
            pending: Vec::new(),
            emitted: Ghost(Seq::empty()),
            consumed: Ghost(Seq::empty()),
            finished: false,
        };
        proof {
            assert(r.emitted@.flatten() + r.pending@ =~= r.consumed@);
        }
        r
    }

    /// Feed one network chunk.  Hands back every window that is now known
    /// to be interior; the final window always comes from `flush`.
    pub fn feed(&mut self, chunk: &[u8]) -> (out: Vec<Vec<u8>>)
        requires
            old(self).wf(),
            !old(self).is_finished(),
        ensures
            final (self).wf(),
            !final (self).is_finished(),
            final (self).spec_window_size() == old(self).spec_window_size(),
            final (self).consumed() == old(self).consumed() + chunk@,
            final (self).emitted() == old(self).emitted() + out@.map_values(|v: Vec<u8>| v@),
            forall|j: int|
                0 <= j < out@.len() ==> (#[trigger] out@[j])@.len() == old(
                    self,
                ).spec_window_size(),
            final (self).emitted().flatten() + final (self).spec_pending() == final (
            self).consumed(),
            final (self).spec_pending().len() <= old(self).spec_window_size(),
            final (self).emitted().len() > 0 ==> final (self).spec_pending().len() > 0,
    {
        let ghost prev_emitted = self.emitted@;
        let mut k: usize = 0;
        while k < chunk.len()
            invariant
                k <= chunk@.len(),
                self.window_size == old(self).window_size,
                self.emitted == old(self).emitted,
                self.finished == old(self).finished,
                !self.finished,
                self.pending@ == old(self).pending@ + chunk@.take(k as int),
                self.consumed@ == old(self).consumed@ + chunk@.take(k as int),
            decreases chunk@.len() - k,
        {
            self.pending.push(chunk[k]);
            proof {
                self.consumed@ = self.consumed@.push(chunk@[k as int]);
                assert(old(self).pending@ + chunk@.take(k + 1) =~= (old(self).pending@
                    + chunk@.take(k as int)).push(chunk@[k as int]));
                assert(old(self).consumed@ + chunk@.take(k + 1) =~= (old(self).consumed@
                    + chunk@.take(k as int)).push(chunk@[k as int]));
            }
            k = k + 1;
        }
        proof {
            assert(chunk@.take(chunk@.len() as int) =~= chunk@);
            assert(self.emitted@.flatten() + self.pending@ =~= (self.emitted@.flatten() + old(
                self,
            ).pending@) + chunk@);
        }

        let ws = self.window_size;
        let mut out: Vec<Vec<u8>> = Vec::new();
        let ghost mut outviews: Seq<Seq<u8>> = Seq::empty();
        proof {
            assert(prev_emitted + outviews =~= prev_emitted);
        }
        while self.pending.len() > ws
            invariant
                ws == self.window_size,
                self.window_size == old(self).window_size,
                self.window_size > 0,
                self.finished == old(self).finished,
                !self.finished,
                self.consumed@ == old(self).consumed@ + chunk@,
                outviews.len() == out@.len(),
                forall|j: int| 0 <= j < out@.len() ==> (#[trigger] out@[j])@ == outviews[j],
                forall|j: int|
                    0 <= j < out@.len() ==> (#[trigger] out@[j])@.len() == self.window_size,
                self.emitted@ == prev_emitted + outviews,
                self.emitted@.len() > 0 ==> self.pending@.len() > 0,
                forall|j: int|
                    0 <= j < self.emitted@.len() ==> (#[trigger] self.emitted@[j]).len()
                        == self.window_size,
                self.emitted@.flatten() + self.pending@ == self.consumed@,
            decreases self.pending@.len(),
        {
            let mut window: Vec<u8> = Vec::new();
            let mut i: usize = 0;
            while i < ws
                invariant
                    i <= ws,
                    ws < self.pending@.len(),
                    window@ == self.pending@.take(i as int),
                decreases ws - i,
            {
                window.push(self.pending[i]);
                proof {
                    assert(self.pending@.take(i + 1) =~= self.pending@.take(i as int).push(
                        self.pending@[i as int],
                    ));
                }
                i = i + 1;
            }
            let mut rest: Vec<u8> = Vec::new();
            let mut i: usize = ws;
            while i < self.pending.len()
                invariant
                    ws <= i <= self.pending@.len(),
                    rest@ == self.pending@.subrange(ws as int, i as int),
                decreases self.pending@.len() - i,
            {
                rest.push(self.pending[i]);
                proof {
                    assert(self.pending@.subrange(ws as int, i + 1) =~= self.pending@.subrange(
                        ws as int,
                        i as int,
                    ).push(self.pending@[i as int]));
                }
                i = i + 1;
            }
            proof {
                let ghost old_pending = self.pending@;
                let ghost old_emitted = self.emitted@;
                self.emitted@ = self.emitted@.push(window@);
                old_emitted.lemma_flatten_push(window@);
                assert(window@ + rest@ =~= old_pending);
                assert((old_emitted.flatten() + window@) + rest@ =~= old_emitted.flatten()
                    + old_pending);
                outviews = outviews.push(window@);
                assert(self.emitted@ =~= prev_emitted + outviews);
            }
            self.pending = rest;
            out.push(window);
        }
        proof {
            assert(out@.map_values(|v: Vec<u8>| v@) =~= outviews);
        }
        out
    }

    /// The stream has ended: emit the final, possibly short, window, or
    /// nothing for an empty stream.  Afterwards the emitted windows are
    /// exactly `window_seq` of everything that was fed.
    pub fn flush(&mut self) -> (r: Option<Vec<u8>>)
        requires
            old(self).wf(),
            !old(self).is_finished(),
        ensures
            final (self).is_finished(),
            final (self).consumed() == old(self).consumed(),
            final (self).spec_window_size() == old(self).spec_window_size(),
            match r {
                Some(w) => {
                    &&& 0 < w@.len() <= old(self).spec_window_size()
                    &&& w@ == old(self).spec_pending()
                    &&& final (self).emitted() == old(self).emitted().push(w@)
                },
                None => {
                    &&& final (self).emitted() == old(self).emitted()
                    &&& old(self).consumed().len() == 0
                },
            },
            final (self).emitted() == window_seq(
                final (self).consumed(),
                old(self).spec_window_size(),
            ),
    {
        self.finished = true;
        if self.pending.len() == 0 {
            proof {
                assert(self.emitted@.len() == 0);
                assert(self.consumed@ =~= Seq::<u8>::empty());
            }
            None
        } else {
            proof {
                lemma_block_seq_of_layout(self.emitted@, self.pending@, self.window_size as nat);
            }
            let mut last: Vec<u8> = Vec::new();
            std::mem::swap(&mut last, &mut self.pending);
            proof {
                self.emitted@ = self.emitted@.push(last@);
            }
            Some(last)
        }
    }
}

/// The block that window `i` of `windows` opens to, under the opening
/// context `ident`, when it authenticates there.
pub open spec fn opens_at(ident: Seq<u8>, windows: Seq<Seq<u8>>, i: int) -> Option<
    (Seq<u8>, bool),
> {
    opened_chunk(ident, windows.take(i), windows[i])
}

/// Every window opens, in order, and window `i` opens to `blocks[i]`.
pub open spec fn opens_pointwise(
    ident: Seq<u8>,
    windows: Seq<Seq<u8>>,
    blocks: Seq<Seq<u8>>,
) -> bool {
    &&& blocks.len() == windows.len()
    &&& forall|i: int|
        0 <= i < windows.len() ==> ((#[trigger] opens_at(ident, windows, i)) matches Some(p) && p.0
            == blocks[i])
}

/// Some window at or after position `w0` was rejected: it does not
/// authenticate at its position, or it arrived after the Finish tag.
pub open spec fn some_window_rejected(ident: Seq<u8>, w0: int, windows: Seq<Seq<u8>>) -> bool {
    exists|k: int|
        {
            &&& w0 <= k < windows.len()
            &&& (opens_at(ident, windows, k) is None || finish_seen(ident, windows.take(k)))
        }
}

/// Whether the last of `windows` carried the Finish tag: the mark of a
/// complete, untruncated stream.
pub open spec fn finish_seen(ident: Seq<u8>, windows: Seq<Seq<u8>>) -> bool {
    &&& windows.len() > 0
    &&& (opens_at(ident, windows, windows.len() - 1) matches Some(p) && p.1)
}

/// Consumes the downloaded byte stream of one transfer and produces its
/// plaintext: re-windows the stream and opens each window in strict arrival
/// order, or passes bytes straight through when the transfer was not
/// encrypted.
pub struct Downloader {
    assembler: DownloadAssembler,
    cipher: Option<OpeningStream>,
    blocks: Ghost<Seq<Seq<u8>>>,
    passed: Ghost<Seq<u8>>,
    failed: bool,
    finished: bool,
}

impl Downloader {
    /// Whether this downloader decrypts (or passes bytes through).
    pub closed spec fn is_decrypting(self) -> bool {
        self.cipher is Some
    }

    /// Identity (key and nonce) of the opening context.
    pub closed spec fn ident(self) -> Seq<u8> {
        self.cipher->Some_0.ident()
    }

    /// Every byte this downloader has been fed, in order.
    pub closed spec fn consumed(self) -> Seq<u8> {
        if self.is_decrypting() {
            self.assembler.consumed()
        } else {
            self.passed@
        }
    }

    /// The windows sliced off so far.
    pub closed spec fn windows(self) -> Seq<Seq<u8>> {
        self.assembler.emitted()
    }

    /// The plaintext blocks produced so far, in order.
    pub closed spec fn opened_blocks(self) -> Seq<Seq<u8>> {
        self.blocks@
    }

    pub closed spec fn spec_window_size(self) -> nat {
        self.assembler.spec_window_size()
    }

    /// A window was rejected; the downloader takes no more bytes.
    pub closed spec fn has_failed(self) -> bool {
        self.failed
    }

    /// `finish` has run.
    pub closed spec fn is_finished(self) -> bool {
        self.finished
    }

    /// The Finish-tagged chunk has been opened: the stream is complete.
    pub closed spec fn is_complete(self) -> bool {
        self.cipher matches Some(c) && c.is_finished()
    }

    pub closed spec fn wf(self) -> bool {
        &&& self.assembler.wf()
        &&& !self.failed && !self.finished ==> !self.assembler.is_finished()
        &&& self.cipher matches Some(c) ==> {
            &&& c.wf()
            &&& !self.failed ==> {
                &&& !c.has_failed()
                &&& c.history() == self.assembler.emitted()
                &&& opens_pointwise(c.ident(), self.assembler.emitted(), self.blocks@)
                &&& c.is_finished() == finish_seen(c.ident(), self.assembler.emitted())
            }
        }
    }

    /// A downloader that passes bytes straight through: the transfer was
    /// not encrypted, or carries pre-protected archive content.
    pub fn new_plain() -> (r: Downloader)
        ensures
            r.wf(),
            !r.is_decrypting(),
            !r.has_failed(),
            !r.is_finished(),
            r.consumed() == Seq::<u8>::empty(),
    {
        Downloader {
            assembler: DownloadAssembler::new(1),
            cipher: None,
            blocks: Ghost(Seq::empty()),
            passed: Ghost(Seq::empty()),
            failed: false,
            finished: false,
        }
    }

    /// A decrypting downloader around a fresh opening context.  Windows are
    /// the sealed blocks: `block_size` plaintext bytes plus the per-chunk
    /// overhead.
    pub fn new_decrypting(cipher: OpeningStream, block_size: u32) -> (r: Downloader)
        requires
            cipher.wf(),
            !cipher.is_finished(),
            !cipher.has_failed(),
            cipher.history() == Seq::<Seq<u8>>::empty(),
            block_size > 0,
            block_size + ENCRYPTION_OVERHEAD <= usize::MAX,
        ensures
            r.wf(),
            r.is_decrypting(),
            !r.has_failed(),
            !r.is_finished(),
            r.ident() == cipher.ident(),
            r.consumed() == Seq::<u8>::empty(),
            r.windows() == Seq::<Seq<u8>>::empty(),
            r.opened_blocks() == Seq::<Seq<u8>>::empty(),
            r.spec_window_size() == block_size + ENCRYPTION_OVERHEAD,
    {
        let window_size = block_size as usize + ENCRYPTION_OVERHEAD as usize;
        Downloader {
            assembler: DownloadAssembler::new(window_size),
            cipher: Some(cipher),
            blocks: Ghost(Seq::empty()),
            passed: Ghost(Seq::empty()),
            failed: false,
            finished: false,
        }
    }

    /// Feed one network chunk; hand back the plaintext that is now ready to
    /// be written out.  Rejects the stream as soon as one window fails to
    /// authenticate, or when sealed chunks keep arriving after the Finish
    /// tag.
    pub fn push(&mut self, data: &[u8]) -> (r: Result<Vec<Vec<u8>>, DecryptError>)
        requires
            old(self).wf(),
            !old(self).has_failed(),
            !old(self).is_finished(),
        ensures
            final (self).wf(),
            final (self).is_decrypting() == old(self).is_decrypting(),
            final (self).is_decrypting() ==> final (self).ident() == old(self).ident(),
            final (self).spec_window_size() == old(self).spec_window_size(),
            !final (self).is_finished(),
            match r {
                Ok(out) => {
                    &&& !final (self).has_failed()
                    &&& final (self).consumed() == old(self).consumed() + data@
                    &&& if old(self).is_decrypting() {
                        &&& final (self).opened_blocks() == old(self).opened_blocks()
                            + out@.map_values(|v: Vec<u8>| v@)
                        &&& old(self).windows().len() <= final (self).windows().len()
                    } else {
                        out@.len() == 1 && out@[0]@ == data@
                    }
                },
                Err(e) => {
                    &&& final (self).has_failed()
                    &&& e == DecryptError::AuthenticationFailure
                    &&& old(self).is_decrypting()
                    &&& some_window_rejected(
                        old(self).ident(),
                        old(self).windows().len() as int,
                        final (self).windows(),
                    )
                },
            },
    {
        if self.cipher.is_none() {
            proof {
                self.passed@ = self.passed@ + data@;
            }
            let mut out: Vec<Vec<u8>> = Vec::new();
            out.push(copy_bytes(data));
            return Ok(out);
        }

        let windows = self.assembler.feed(data);
        let ghost w_all = self.assembler.emitted();
        let ghost w0 = old(self).windows().len() as int;
        let ghost ident = self.ident();
        proof {
            assert(w_all.take(w0) =~= old(self).windows());
        }

        let mut out: Vec<Vec<u8>> = Vec::new();
        let mut i: usize = 0;
        while i < windows.len()
            invariant
                0 <= i <= windows@.len(),
                old(self).is_decrypting(),
                ident == old(self).ident(),
                !self.finished,
                self.cipher is Some,
                self.assembler.wf(),
                !self.assembler.is_finished(),
                self.assembler.spec_window_size() == old(self).spec_window_size(),
                self.assembler.consumed() == old(self).consumed() + data@,
                w_all == self.assembler.emitted(),
                w_all.len() == w0 + windows@.len(),
                w0 == old(self).windows().len(),
                forall|j: int| 0 <= j < windows@.len() ==> w_all[w0 + j] == (#[trigger] windows@[j])@,
                self.cipher matches Some(c) && c.wf() && !c.has_failed() && c.ident() == ident
                    && c.history() == w_all.take(w0 + i) && c.is_finished() == finish_seen(
                    ident,
                    w_all.take(w0 + i),
                ),
                self.blocks@.len() == w0 + i,
                opens_pointwise(ident, w_all.take(w0 + i), self.blocks@),
                self.blocks@.take(w0) == old(self).opened_blocks(),
                out@.len() == i,
                forall|j: int| 0 <= j < i ==> (#[trigger] out@[j])@ == self.blocks@[w0 + j],
                !self.failed,
                self.finished == old(self).finished,
                self.passed == old(self).passed,
            decreases windows@.len() - i,
        {
            proof {
                assert(w_all.take(w0 + i).len() == w0 + i);
            }
            let finished_already = match &self.cipher {
                Some(c) => c.finished(),
                None => false,
            };
            if finished_already {
                self.failed = true;
                proof {
                    let k = w0 + i;
                    assert(finish_seen(ident, w_all.take(k)));
                    assert(w0 <= k < w_all.len());
                    assert(some_window_rejected(ident, w0, w_all)) by {
                        assert(w0 <= k < w_all.len() && (opens_at(ident, w_all, k) is None
                            || finish_seen(ident, w_all.take(k))));
                    }
                }
                return Err(DecryptError::AuthenticationFailure);
            }
            let mut taken: Option<OpeningStream> = None;
            std::mem::swap(&mut taken, &mut self.cipher);
            let mut cipher = match taken {
                Some(c) => c,
                None => vstd::pervasive::unreached(),
            };
            let opened = cipher.open(windows[i].as_slice());
            self.cipher = Some(cipher);
            match opened {
                Ok(block) => {
                    proof {
                        let hist = w_all.take(w0 + i);
                        assert(windows@[i as int]@ == w_all[w0 + i]);
                        assert(hist.push(w_all[w0 + i]) =~= w_all.take(w0 + i + 1));
                        let wnext = w_all.take(w0 + i + 1);
                        assert(wnext.take(w0 + i) =~= hist);
                        assert(opens_at(ident, wnext, w0 + i) == Some(
                            (block@, self.cipher->Some_0.is_finished()),
                        ));
                        assert(finish_seen(ident, wnext) == self.cipher->Some_0.is_finished());
                        self.blocks@ = self.blocks@.push(block@);
                        assert forall|j: int| 0 <= j < w0 + i + 1 implies (#[trigger] opens_at(
                            ident,
                            w_all.take(w0 + i + 1),
                            j,
                        )) matches Some(p) && p.0 == self.blocks@[j] by {
                            assert(w_all.take(w0 + i + 1).take(j) =~= w_all.take(j));
                            assert(w_all.take(w0 + i).take(j) =~= w_all.take(j));
                            if j < w0 + i {
                                assert(opens_at(ident, w_all.take(w0 + i), j) matches Some(p)
                                    && p.0 == self.blocks@[j]);
                            }
                        }
                        assert(self.blocks@.take(w0) =~= self.blocks@.drop_last().take(w0));
                    }
                    out.push(block);
                },
                Err(e) => {
                    self.failed = true;
                    proof {
                        let k = w0 + i;
                        assert(windows@[i as int]@ == w_all[w0 + i]);
                        assert(w_all.take(k) == w_all.take(w0 + i));
                        assert(opens_at(ident, w_all, k) is None);
                        assert(some_window_rejected(ident, w0, w_all)) by {
                            assert(w0 <= k < w_all.len() && (opens_at(ident, w_all, k) is None
                                || finish_seen(ident, w_all.take(k))));
                        }
                    }
                    return Err(e);
                },
            }
            i = i + 1;
        }
        proof {
            assert(w_all.take(w0 + windows@.len()) =~= w_all);
            assert(out@.map_values(|v: Vec<u8>| v@) =~= self.blocks@.skip(w0));
            assert(old(self).opened_blocks() + self.blocks@.skip(w0) =~= self.blocks@);
        }
        Ok(out)
    }

    /// The stream has ended.  For a pass-through transfer there is nothing
    /// left to do.  For an encrypted transfer, the final window is sliced
    /// off and opened, and the stream is accepted only if its Finish tag
    /// has now been seen: a stream that ends without one was cut short and
    /// is rejected as `TruncatedStream`, never silently shortened.
    pub fn finish(&mut self) -> (r: Result<Option<Vec<u8>>, DecryptError>)
        requires
            old(self).wf(),
            !old(self).has_failed(),
            !old(self).is_finished(),
        ensures
            final (self).wf(),
            final (self).is_decrypting() == old(self).is_decrypting(),
            final (self).consumed() == old(self).consumed(),
            !old(self).is_decrypting() ==> r == Ok::<Option<Vec<u8>>, DecryptError>(None),
            old(self).is_decrypting() ==> {
                &&& final (self).ident() == old(self).ident()
                &&& final (self).windows() == window_seq(
                    old(self).consumed(),
                    old(self).spec_window_size(),
                )
                &&& match r {
                    Ok(b) => {
                        &&& opens_pointwise(
                            old(self).ident(),
                            final (self).windows(),
                            final (self).opened_blocks(),
                        )
                        &&& finish_seen(old(self).ident(), final (self).windows())
                        &&& final (self).is_complete()
                        &&& b matches Some(blk) && blk@ == final (self).opened_blocks().last()
                        &&& final (self).windows().len() > 0
                    },
                    Err(e) => {
                        &&& e == DecryptError::TruncatedStream ==> {
                            &&& opens_pointwise(
                                old(self).ident(),
                                final (self).windows(),
                                final (self).opened_blocks(),
                            )
                            &&& !finish_seen(old(self).ident(), final (self).windows())
                        }
                        &&& e == DecryptError::AuthenticationFailure ==> {
                            &&& final (self).has_failed()
                            &&& some_window_rejected(
                                old(self).ident(),
                                final (self).windows().len() - 1,
                                final (self).windows(),
                            )
                        }
                    },
                }
            },
    {
        if self.cipher.is_none() {
            self.finished = true;
            return Ok(None);
        }
        let ghost ident = self.ident();
        let flushed = self.assembler.flush();
        let ghost w_all = self.assembler.emitted();
        let ghost w0 = old(self).windows().len() as int;
        self.finished = true;
        match flushed {
            None => Err(DecryptError::TruncatedStream),
            Some(w) => {
                proof {
                    assert(w_all.take(w0) =~= old(self).windows());
                }
                let finished_already = match &self.cipher {
                    Some(c) => c.finished(),
                    None => false,
                };
                if finished_already {
                    self.failed = true;
                    proof {
                        let k = w_all.len() - 1;
                        assert(w_all.take(k) =~= old(self).windows());
                        assert(finish_seen(ident, w_all.take(k)));
                        assert(some_window_rejected(ident, k, w_all)) by {
                            assert(k <= k < w_all.len() && (opens_at(ident, w_all, k) is None
                                || finish_seen(ident, w_all.take(k))));
                        }
                    }
                    return Err(DecryptError::AuthenticationFailure);
                }
                let mut taken: Option<OpeningStream> = None;
                std::mem::swap(&mut taken, &mut self.cipher);
                let mut cipher = match taken {
                    Some(c) => c,
                    None => vstd::pervasive::unreached(),
                };
                let opened = cipher.open(w.as_slice());
                let complete = cipher.finished();
                self.cipher = Some(cipher);
                match opened {
                    Ok(block) => {
                        proof {
                            let hist = w_all.take(w0);
                            assert(hist.push(w@) =~= w_all);
                            assert(w_all.take(w_all.len() - 1) =~= hist);
                            assert(w_all[w_all.len() - 1] == w@);
                            self.blocks@ = self.blocks@.push(block@);
                            assert(opens_at(ident, w_all, w_all.len() - 1) == Some(
                                (block@, self.cipher->Some_0.is_finished()),
                            ));
                            assert forall|j: int| 0 <= j < w_all.len() implies (
                            #[trigger] opens_at(ident, w_all, j)) matches Some(p) && p.0
                                == self.blocks@[j] by {
                                assert(w_all.take(j) =~= hist.take(j));
                                if j < w_all.len() - 1 {
                                    assert(opens_at(ident, hist, j) matches Some(p) && p.0
                                        == self.blocks@[j]);
                                }
                            }
                        }
                        if complete {
                            Ok(Some(block))
                        } else {
                            Err(DecryptError::TruncatedStream)
                        }
                    },
                    Err(e) => {
                        self.failed = true;
                        proof {
                            let k = w_all.len() - 1;
                            assert(w_all.take(k) =~= old(self).windows());
                            assert(w_all[k] == w@);
                            assert(opens_at(ident, w_all, k) is None);
                            assert(some_window_rejected(ident, k, w_all)) by {
                                assert(k <= k < w_all.len() && (opens_at(ident, w_all, k) is None
                                    || finish_seen(ident, w_all.take(k))));
                            }
                        }
                        Err(e)
                    },
                }
            },
        }
    }
}

/// Build the downloader of one transfer from its encryption metadata: a
/// pass-through downloader when no decryption should be attempted, else an
/// opening context reconstructed from the password the user entered and the
/// salt and nonce the metadata carries.
pub fn new_downloader(metadata: &EncryptionMetadata, password: Option<&str>) -> (r: Result<
    Downloader,
    CryptoError,
>)
    ensures
        !metadata.attempt_decryption ==> (r matches Ok(d) && !d.is_decrypting()),
        r matches Ok(d) ==> {
            &&& !d.has_failed()
            &&& !d.is_finished()
            &&& d.wf()
            &&& d.consumed() == Seq::<u8>::empty()
            &&& d.is_decrypting() == metadata.attempt_decryption
        },
        r matches Ok(d) ==> (metadata.attempt_decryption ==> {
            &&& (password matches Some(p) && metadata.salt matches Some(s) && d.ident()
                == crate::crypto::derived_key(p.spec_bytes(), s@) + metadata.nonce->Some_0@)
            &&& d.windows() == Seq::<Seq<u8>>::empty()
            &&& d.opened_blocks() == Seq::<Seq<u8>>::empty()
        }),
        (metadata.attempt_decryption && (password matches Some(p) && p.spec_bytes().len() > 0
            && p.spec_bytes().len() < 0x1_0000_0000) && (metadata.salt matches Some(s) && s@.len()
            >= 8 && s@.len() < 0x1_0000_0000) && (metadata.nonce matches Some(n)
            && n@.len() == 24) && (match metadata.block_size {
            Some(b) => b > 0 && b + ENCRYPTION_OVERHEAD <= usize::MAX,
            None => true,
        })) ==> r is Ok,
{
    if !metadata.attempt_decryption {
        return Ok(Downloader::new_plain());
    }
    let pwd = match password {
        Some(p) => p,
        None => {
            return Err(CryptoError::Unknown);
        },
    };
    let salt = match &metadata.salt {
        Some(s) => s,
        None => {
            return Err(CryptoError::Unknown);
        },
    };
    let nonce = match &metadata.nonce {
        Some(n) => n,
        None => {
            return Err(CryptoError::Unknown);
        },
    };
    let block_size = match metadata.block_size {
        Some(b) => b,
        None => FILE_STREAM_READ_BUF_SIZE,
    };
    if block_size == 0 || block_size as u64 + ENCRYPTION_OVERHEAD as u64 > usize::MAX as u64 {
        return Err(CryptoError::Unknown);
    }
    let cipher = match new_decryptor(pwd, salt.as_slice(), nonce.as_slice()) {
        Ok(c) => c,
        Err(e) => {
            return Err(e);
        },
    };
    Ok(Downloader::new_decrypting(cipher, block_size))
}

} // verus!
