//! Chunked stream production: a byte source becomes a lazy, ordered,
//! non-restartable sequence of `block_size`-sized blocks, with the terminal
//! block tagged.
//!
//! The reads themselves happen outside the library; a `BlockReader` is fed
//! the bytes each read returned and hands back the finished blocks.  A block
//! is emitted as interior only once bytes beyond it have been seen, so the
//! last block of the source, full or short, and it alone, is the terminal
//! one.  A source of length 0 yields exactly one terminal, zero-length
//! block: that is what allows creation of an empty remote file.

use vstd::prelude::*;

verus! {

/// Copy a byte slice into a fresh vector.
pub fn copy_bytes(s: &[u8]) -> (r: Vec<u8>)
    ensures
        r@ == s@,
{
    let mut r: Vec<u8> = Vec::new();
    let mut i: usize = 0;
    while i < s.len()
        invariant
            i <= s@.len(),
            r@ == s@.take(i as int),
        decreases s@.len() - i,
    {
        r.push(s[i]);
        proof {
            assert(s@.take(i + 1) =~= s@.take(i as int).push(s@[i as int]));
        }
        i = i + 1;
    }
    proof {
        assert(s@.take(s@.len() as int) =~= s@);
    }
    r
}

/// The blocks of `s` under block size `b`: full `b`-byte slices in source
/// order, the remainder (possibly empty only for an empty source) last.
pub open spec fn block_seq(s: Seq<u8>, b: nat) -> Seq<Seq<u8>>
    recommends
        b > 0,
    decreases s.len(),
    when b > 0
{
    if s.len() <= b {
        seq![s]
    } else {
        seq![s.take(b as int)] + block_seq(s.skip(b as int), b)
    }
}

/// `ceil(l / b)`.
pub open spec fn ceil_div(l: int, b: int) -> int
    recommends
        b > 0,
{
    l / b + if l % b == 0 {
        0int
    } else {
        1int
    }
}

/// Block-count law: a source of `l` bytes yields `ceil(l / b)` blocks, or
/// exactly one (empty, terminal) block when `l == 0`.
pub proof fn lemma_block_count(s: Seq<u8>, b: nat)
    requires
        b > 0,
    ensures
        block_seq(s, b).len() == if s.len() == 0 {
            1int
        } else {
            ceil_div(s.len() as int, b as int)
        },
    decreases s.len(),
{
    let l = s.len() as int;
    let bi = b as int;
    if s.len() <= b {
        if s.len() > 0 {
            if l == bi {
                vstd::arithmetic::div_mod::lemma_div_by_self(bi);
                vstd::arithmetic::div_mod::lemma_mod_self_0(bi);
            } else {
                vstd::arithmetic::div_mod::lemma_basic_div_specific_divisor(bi);
                vstd::arithmetic::div_mod::lemma_small_mod(s.len(), b);
            }
        }
    } else {
        lemma_block_count(s.skip(bi), b);
        let q = (l - bi) / bi;
        let m = (l - bi) % bi;
        vstd::arithmetic::div_mod::lemma_fundamental_div_mod(l - bi, bi);
        vstd::arithmetic::div_mod::lemma_mod_bound(l - bi, bi);
        assert(l == bi * (q + 1) + m) by (nonlinear_arith)
            requires
                l - bi == bi * q + m,
        ;
        vstd::arithmetic::div_mod::lemma_fundamental_div_mod_converse(l, bi, q + 1, m);
    }
}

/// Concatenation law: joining the emitted blocks in order reproduces the
/// source bytes exactly.
pub proof fn lemma_block_concat(s: Seq<u8>, b: nat)
    requires
        b > 0,
    ensures
        block_seq(s, b).flatten() == s,
    decreases s.len(),
{
    if s.len() <= b {
        block_seq(s, b).lemma_flatten_one_element();
        assert(block_seq(s, b).flatten() =~= s);
    } else {
        let bi = b as int;
        lemma_block_concat(s.skip(bi), b);
        let head = seq![s.take(bi)];
        let tail = block_seq(s.skip(bi), b);
        vstd::seq_lib::lemma_flatten_concat(head, tail);
        head.lemma_flatten_one_element();
        assert((head + tail).flatten() =~= s.take(bi) + s.skip(bi));
        assert(s.take(bi) + s.skip(bi) =~= s);
    }
}

/// Shape law: every block but the last is exactly `b` bytes, the last block
/// is at most `b` bytes, and it is empty only for an empty source.
pub proof fn lemma_block_sizes(s: Seq<u8>, b: nat)
    requires
        b > 0,
    ensures
        block_seq(s, b).len() > 0,
        forall|j: int|
            0 <= j < block_seq(s, b).len() - 1 ==> (#[trigger] block_seq(s, b)[j]).len() == b,
        block_seq(s, b).last().len() <= b,
        s.len() > 0 ==> block_seq(s, b).last().len() > 0,
    decreases s.len(),
{
    if s.len() > b {
        lemma_block_sizes(s.skip(b as int), b);
    }
}

/// `block_seq` of a concatenation that is already laid out in blocks: `k`
/// full blocks followed by a remainder that is non-empty whenever `k > 0`.
pub(crate) proof fn lemma_block_seq_of_layout(blocks: Seq<Seq<u8>>, tail: Seq<u8>, b: nat)
    requires
        b > 0,
        forall|j: int| 0 <= j < blocks.len() ==> (#[trigger] blocks[j]).len() == b,
        tail.len() <= b,
        blocks.len() > 0 ==> tail.len() > 0,
    ensures
        block_seq(blocks.flatten() + tail, b) == blocks.push(tail),
    decreases blocks.len(),
{
    let s = blocks.flatten() + tail;
    if blocks.len() == 0 {
        assert(blocks.flatten() =~= Seq::<u8>::empty());
        assert(s =~= tail);
        assert(block_seq(s, b) =~= blocks.push(tail));
    } else {
        let rest = blocks.drop_first();
        lemma_block_seq_of_layout(rest, tail, b);
        assert(blocks.flatten() == blocks.first() + rest.flatten());
        assert(s.len() > b);
        assert(s.take(b as int) =~= blocks.first());
        assert(s.skip(b as int) =~= rest.flatten() + tail);
        assert(block_seq(s, b) == seq![blocks.first()] + rest.push(tail));
        assert(seq![blocks.first()] + rest.push(tail) =~= blocks.push(tail));
    }
}

/// Turns the bytes of one source, handed over read by read, into blocks.
/// Single-pass and not restartable: bytes go in once, blocks come out once.
pub struct BlockReader {
    block_size: u32,
    pending: Vec<u8>,
    emitted: Ghost<Seq<Seq<u8>>>,
    consumed: Ghost<Seq<u8>>,
    finished: bool,
}

impl BlockReader {
    /// Every byte this reader has been fed, in order.
    pub closed spec fn consumed(self) -> Seq<u8> {
        self.consumed@
    }

    /// The blocks handed out so far, in source order (the terminal block
    /// included once `finish` has run).
    pub closed spec fn emitted(self) -> Seq<Seq<u8>> {
        self.emitted@
    }

    pub closed spec fn spec_block_size(self) -> nat {
        self.block_size as nat
    }

    /// Bytes consumed but not yet emitted as a block: the withheld tail of
    /// the source, never longer than one block.
    pub closed spec fn spec_pending(self) -> Seq<u8> {
        self.pending@
    }

    /// The terminal block has been emitted; the reader takes no more bytes.
    pub closed spec fn is_finished(self) -> bool {
        self.finished
    }

    pub closed spec fn wf(self) -> bool {
        &&& self.block_size > 0
        &&& !self.finished ==> {
            &&& self.pending@.len() <= self.block_size
            &&& self.emitted@.len() > 0 ==> self.pending@.len() > 0
            &&& forall|j: int|
                0 <= j < self.emitted@.len() ==> (#[trigger] self.emitted@[j]).len()
                    == self.block_size
            &&& self.emitted@.flatten() + self.pending@ == self.consumed@
        }
    }

    /// A fresh reader for one source.
    pub fn new(block_size: u32) -> (r: BlockReader)
        requires
            block_size > 0,
        ensures
            r.wf(),
            !r.is_finished(),
            r.consumed() == Seq::<u8>::empty(),
            r.emitted() == Seq::<Seq<u8>>::empty(),
            r.spec_pending() == Seq::<u8>::empty(),
            r.spec_block_size() == block_size,
    {
        let r = BlockReader {
            block_size,
            pending: Vec::new(),
            emitted: Ghost(Seq::empty()),
            consumed: Ghost(Seq::empty()),
            finished: false,
        };
        proof {
            assert(r.emitted@.flatten() + r.pending@ =~= r.consumed@);
        }
        r
    }

    /// Feed the bytes one read returned.  Hands back every block that is
    /// now known to be interior: a block is withheld until at least one
    /// byte beyond it has arrived, so the terminal block always comes from
    /// `finish`.
    pub fn feed(&mut self, chunk: &[u8]) -> (out: Vec<Vec<u8>>)
        requires
            old(self).wf(),
            !old(self).is_finished(),
        ensures
            final (self).wf(),
            !final (self).is_finished(),
            final (self).spec_block_size() == old(self).spec_block_size(),
            final (self).consumed() == old(self).consumed() + chunk@,
            final (self).emitted() == old(self).emitted() + out@.map_values(|v: Vec<u8>| v@),
            forall|j: int|
                0 <= j < out@.len() ==> (#[trigger] out@[j])@.len() == old(
                    self,
                ).spec_block_size(),
            final (self).emitted().flatten() + final (self).spec_pending() == final (
            self).consumed(),
            final (self).spec_pending().len() <= old(self).spec_block_size(),
            final (self).emitted().len() > 0 ==> final (self).spec_pending().len() > 0,
    {
        let ghost prev_emitted = self.emitted@;
        let mut k: usize = 0;
        while k < chunk.len()
            invariant
                k <= chunk@.len(),
                self.block_size == old(self).block_size,
                self.emitted == old(self).emitted,
                self.finished == old(self).finished,
                !self.finished,
                self.pending@ == old(self).pending@ + chunk@.take(k as int),
                self.consumed@ == old(self).consumed@ + chunk@.take(k as int),
            decreases chunk@.len() - k,
        {
            self.pending.push(chunk[k]);
            proof {
                self.consumed@ = self.consumed@.push(chunk@[k as int]);
                assert(old(self).pending@ + chunk@.take(k + 1) =~= (old(self).pending@
                    + chunk@.take(k as int)).push(chunk@[k as int]));
                assert(old(self).consumed@ + chunk@.take(k + 1) =~= (old(self).consumed@
                    + chunk@.take(k as int)).push(chunk@[k as int]));
            }
            k = k + 1;
        }
        proof {
            assert(chunk@.take(chunk@.len() as int) =~= chunk@);
            assert(self.emitted@.flatten() + self.pending@ =~= (self.emitted@.flatten() + old(
                self,
            ).pending@) + chunk@);
        }

        let bs = self.block_size as usize;
        let mut out: Vec<Vec<u8>> = Vec::new();
        let ghost mut outviews: Seq<Seq<u8>> = Seq::empty();
        proof {
            assert(prev_emitted + outviews =~= prev_emitted);
        }
        while self.pending.len() > bs
            invariant
                bs == self.block_size,
                self.block_size == old(self).block_size,
                self.block_size > 0,
                self.finished == old(self).finished,
                !self.finished,
                self.consumed@ == old(self).consumed@ + chunk@,
                outviews.len() == out@.len(),
                forall|j: int| 0 <= j < out@.len() ==> (#[trigger] out@[j])@ == outviews[j],
                forall|j: int|
                    0 <= j < out@.len() ==> (#[trigger] out@[j])@.len() == self.block_size,
                self.emitted@ == prev_emitted + outviews,
                self.emitted@.len() > 0 ==> self.pending@.len() > 0,
                forall|j: int|
                    0 <= j < self.emitted@.len() ==> (#[trigger] self.emitted@[j]).len()
                        == self.block_size,
                self.emitted@.flatten() + self.pending@ == self.consumed@,
            decreases self.pending@.len(),
        {
            let mut block: Vec<u8> = Vec::new();
            let mut i: usize = 0;
            while i < bs
                invariant
                    i <= bs,
                    bs < self.pending@.len(),
                    block@ == self.pending@.take(i as int),
                decreases bs - i,
            {
                block.push(self.pending[i]);
                proof {
                    assert(self.pending@.take(i + 1) =~= self.pending@.take(i as int).push(
                        self.pending@[i as int],
                    ));
                }
                i = i + 1;
            }
            let mut rest: Vec<u8> = Vec::new();
            let mut i: usize = bs;
            while i < self.pending.len()
                invariant
                    bs <= i <= self.pending@.len(),
                    rest@ == self.pending@.subrange(bs as int, i as int),
                decreases self.pending@.len() - i,
            {
                rest.push(self.pending[i]);
                proof {
                    assert(self.pending@.subrange(bs as int, i + 1) =~= self.pending@.subrange(
                        bs as int,
                        i as int,
                    ).push(self.pending@[i as int]));
                }
                i = i + 1;
            }
            proof {
                let ghost old_pending = self.pending@;
                let ghost old_emitted = self.emitted@;
                self.emitted@ = self.emitted@.push(block@);
                old_emitted.lemma_flatten_push(block@);
                assert(block@ + rest@ =~= old_pending);
                assert((old_emitted.flatten() + block@) + rest@ =~= old_emitted.flatten()
                    + old_pending);
                outviews = outviews.push(block@);
                assert(self.emitted@ =~= prev_emitted + outviews);
            }
            self.pending = rest;
            out.push(block);
        }
        proof {
            assert(out@.map_values(|v: Vec<u8>| v@) =~= outviews);
        }
        out
    }

    /// The source has ended: emit the terminal block, whatever is pending,
    /// a zero-length block for an empty source.  Afterwards the emitted
    /// blocks are exactly `block_seq` of everything that was fed.
    pub fn finish(&mut self) -> (r: Vec<u8>)
        requires
            old(self).wf(),
            !old(self).is_finished(),
        ensures
            final (self).is_finished(),
            final (self).consumed() == old(self).consumed(),
            r@ == old(self).spec_pending(),
            final (self).spec_pending() == Seq::<u8>::empty(),
            r@.len() <= old(self).spec_block_size(),
            final (self).emitted() == old(self).emitted().push(r@),
            final (self).emitted() == block_seq(
                final (self).consumed(),
                old(self).spec_block_size(),
            ),
    {
        proof {
            lemma_block_seq_of_layout(
                self.emitted@,
                self.pending@,
                self.block_size as nat,
            );
        }
        let mut terminal: Vec<u8> = Vec::new();
        std::mem::swap(&mut terminal, &mut self.pending);
        self.finished = true;
        proof {
            self.emitted@ = self.emitted@.push(terminal@);
        }
        terminal
    }
}

/// Cut a whole in-memory source into blocks in one call: the loop around
/// `feed` and `finish` that a streaming edge would otherwise drive.
pub fn read_all_blocks(source: &Vec<u8>, block_size: u32) -> (r: Vec<Vec<u8>>)
    requires
        block_size > 0,
    ensures
        r@.map_values(|v: Vec<u8>| v@) == block_seq(source@, block_size as nat),
{
    let mut reader = BlockReader::new(block_size);
    let mut out = reader.feed(source.as_slice());
    proof {
        assert(Seq::<u8>::empty() + source@ =~= source@);
        assert(Seq::<Seq<u8>>::empty() + out@.map_values(|v: Vec<u8>| v@) =~= out@.map_values(
            |v: Vec<u8>| v@,
        ));
    }
    let terminal = reader.finish();
    out.push(terminal);
    proof {
        assert(out@.map_values(|v: Vec<u8>| v@) =~= out@.drop_last().map_values(
            |v: Vec<u8>| v@,
        ).push(out@.last()@));
    }
    out
}

} // verus!
