//! The end-to-end ordering law of the transfer engine.
//!
//! Within one stream, block order is preserved from reading through
//! sealing, transmission, re-windowing and opening back to writing.  The
//! function below walks that whole pipeline and proves that the bytes that
//! come out are the bytes that went in, for every source, every block size
//! and every network re-chunking.

use vstd::prelude::*;
use vstd::string::StringSliceAdditionalSpecFns;

use crate::assemble::DownloadAssembler;
use crate::block::{
    block_seq, copy_bytes, lemma_block_concat, lemma_block_sizes, lemma_block_seq_of_layout,
    read_all_blocks,
};
use crate::crypto::{new_decryptor, new_encryptor, opened_chunk, CryptoError};
use crate::uploads::seal_blocks;

verus! {

/// Round-trip law of the whole pipeline: cut a source into blocks, seal
/// them under a fresh context, concatenate the sealed chunks into one wire
/// stream, hand that stream over in network chunks of any positive size,
/// re-window it and open every window under the matching context — and the
/// recovered bytes are exactly the source, with the stream recognised as
/// complete.  The password may be any non-empty string shorter than 2^32
/// bytes, the key derivation's input limit.
pub fn transfer_round_trip(
    password: &str,
    source: &Vec<u8>,
    block_size: u32,
    net_chunk: usize,
) -> (r: Result<Vec<u8>, CryptoError>)
    requires
        password.spec_bytes().len() > 0,
        password.spec_bytes().len() < 0x1_0000_0000,
        block_size > 0,
        block_size + 17 <= usize::MAX,
        net_chunk > 0,
    ensures
        r is Ok,
        r matches Ok(out) ==> out@ == source@,
{
    let blocks = read_all_blocks(source, block_size);
    let ghost blockviews = blocks@.map_values(|v: Vec<u8>| v@);
    proof {
        lemma_block_sizes(source@, block_size as nat);
        lemma_block_concat(source@, block_size as nat);
        assert(blockviews =~= block_seq(source@, block_size as nat));
        assert forall|j: int| 0 <= j < blocks@.len() implies (#[trigger] blocks@[j])@.len()
            < 0x1_0000_0000 by {
            assert(blockviews[j].len() <= block_size);
        }
    }

    let mut sealer = match new_encryptor(password) {
        Ok(s) => s,
        Err(_) => {
            return vstd::pervasive::unreached();
        },
    };
    let ghost ident = sealer.ident();
    let chunks = seal_blocks(&mut sealer, &blocks);
    let ghost ctviews = chunks@.map_values(|v: Vec<u8>| v@);
    proof {
        assert(sealer.history() == ctviews);
        assert forall|j: int| 0 <= j < ctviews.len() implies (#[trigger] ctviews[j]).len()
            == blockviews[j].len() + 17 by {
            assert(chunks@[j]@ == ctviews[j]);
        }
    }

    let mut wire: Vec<u8> = Vec::new();
    let mut i: usize = 0;
    while i < chunks.len()
        invariant
            i <= chunks@.len(),
            ctviews == chunks@.map_values(|v: Vec<u8>| v@),
            wire@ == ctviews.take(i as int).flatten(),
        decreases chunks@.len() - i,
    {
        let mut j: usize = 0;
        while j < chunks[i].len()
            invariant
                i < chunks@.len(),
                j <= chunks@[i as int]@.len(),
                ctviews == chunks@.map_values(|v: Vec<u8>| v@),
                wire@ == ctviews.take(i as int).flatten() + chunks@[i as int]@.take(j as int),
            decreases chunks@[i as int]@.len() - j,
        {
            wire.push(chunks[i][j]);
            proof {
                assert(ctviews.take(i as int).flatten() + chunks@[i as int]@.take(j + 1) =~= (
                ctviews.take(i as int).flatten() + chunks@[i as int]@.take(j as int)).push(
                    chunks@[i as int]@[j as int],
                ));
            }
            j = j + 1;
        }
        proof {
            let pre = ctviews.take(i as int);
            assert(chunks@[i as int]@.take(chunks@[i as int]@.len() as int) =~= ctviews[i as int]);
            pre.lemma_flatten_push(ctviews[i as int]);
            assert(pre.push(ctviews[i as int]) =~= ctviews.take(i + 1));
            assert(wire@ =~= ctviews.take(i + 1).flatten());
        }
        i = i + 1;
    }
    proof {
        assert(ctviews.take(ctviews.len() as int) =~= ctviews);
    }

    let window_size = block_size as usize + 17;
    let mut assembler = DownloadAssembler::new(window_size);
    let mut windows: Vec<Vec<u8>> = Vec::new();
    let ghost mut winviews: Seq<Seq<u8>> = Seq::empty();
    let mut i: usize = 0;
    while i < wire.len()
        invariant
            i <= wire@.len(),
            net_chunk > 0,
            assembler.wf(),
            !assembler.is_finished(),
            assembler.spec_window_size() == window_size,
            assembler.consumed() == wire@.take(i as int),
            assembler.emitted() == winviews,
            winviews.len() == windows@.len(),
            forall|j: int| 0 <= j < windows@.len() ==> (#[trigger] windows@[j])@ == winviews[j],
        decreases wire@.len() - i,
    {
        let end = if wire.len() - i < net_chunk {
            wire.len()
        } else {
            i + net_chunk
        };
        let piece = vstd::slice::slice_subrange(wire.as_slice(), i, end);
        let got = assembler.feed(piece);
        proof {
            assert(wire@.take(i as int) + wire@.subrange(i as int, end as int) =~= wire@.take(
                end as int,
            ));
        }
        let ghost w0 = winviews;
        let mut k: usize = 0;
        while k < got.len()
            invariant
                k <= got@.len(),
                windows@.len() == w0.len() + k,
                forall|j: int| 0 <= j < w0.len() ==> (#[trigger] windows@[j])@ == w0[j],
                forall|j: int| 0 <= j < k ==> (#[trigger] windows@[w0.len() + j])@ == got@[j]@,
            decreases got@.len() - k,
        {
            windows.push(copy_bytes(got[k].as_slice()));
            k = k + 1;
        }
        proof {
            winviews = winviews + got@.map_values(|v: Vec<u8>| v@);
            assert forall|j: int| 0 <= j < windows@.len() implies (#[trigger] windows@[j])@
                == winviews[j] by {
                if j >= w0.len() {
                    let jj = j - w0.len();
                    assert(windows@[w0.len() + jj]@ == got@[jj]@);
                }
            }
        }
        i = end;
    }
    proof {
        assert(wire@.take(wire@.len() as int) =~= wire@);
    }
    let flushed = assembler.flush();
    match flushed {
        Some(last) => {
            windows.push(last);
            proof {
                winviews = winviews.push(windows@.last()@);
            }
        },
        None => {},
    }
    proof {
        assert(winviews =~= assembler.emitted());
    }

    // the windows of the wire stream are exactly the sealed chunks
    proof {
        assert(ctviews.len() > 0);
        assert(ctviews[0].len() >= 17);
        assert(wire@.len() > 0) by {
            ctviews.lemma_flatten_length_ge_single_element_length(0);
            ctviews.lemma_flatten_and_flatten_alt_are_equivalent();
        }
        let front = ctviews.drop_last();
        front.lemma_flatten_push(ctviews.last());
        assert(front.push(ctviews.last()) =~= ctviews);
        assert(front.flatten() + ctviews.last() == ctviews.flatten());
        assert forall|j: int| 0 <= j < front.len() implies (#[trigger] front[j]).len()
            == window_size by {
            assert(front[j] == ctviews[j]);
            assert(blockviews[j].len() == block_size);
        }
        assert(ctviews.last().len() <= window_size);
        assert(ctviews.last().len() > 0);
        lemma_block_seq_of_layout(front, ctviews.last(), window_size as nat);
        assert(block_seq(ctviews.flatten(), window_size as nat) == ctviews);
        assert(assembler.emitted() == ctviews);
    }

    let salt = sealer.salt_bytes();
    let nonce = sealer.nonce_bytes();
    let mut opener = match new_decryptor(password, salt.as_slice(), nonce.as_slice()) {
        Ok(o) => o,
        Err(_) => {
            return vstd::pervasive::unreached();
        },
    };
    assert(opener.ident() == ident);

    let n = windows.len();
    let ghost total = blockviews.len();
    proof {
        assert(n == ctviews.len());
        assert forall|j: int| 0 <= j < n implies #[trigger] opened_chunk(
            ident,
            ctviews.take(j),
            ctviews[j],
        ) == Some((blockviews[j], j == n - 1)) by {
            assert(opened_chunk(ident, sealer.history().take(j), sealer.history()[j]) == Some(
                (blocks@[j]@, j == blocks@.len() - 1),
            ));
        }
    }
    let mut out: Vec<u8> = Vec::new();
    let mut i: usize = 0;
    while i < n
        invariant
            n == windows@.len(),
            n == ctviews.len(),
            n == blockviews.len(),
            i <= n,
            blockviews == blocks@.map_values(|v: Vec<u8>| v@),
            forall|j: int| 0 <= j < n ==> (#[trigger] windows@[j])@ == ctviews[j],
            forall|j: int|
                0 <= j < n ==> #[trigger] opened_chunk(ident, ctviews.take(j), ctviews[j]) == Some(
                    (blockviews[j], j == n - 1),
                ),
            opener.wf(),
            opener.ident() == ident,
            opener.history() == ctviews.take(i as int),
            opener.is_finished() == (i == n),
            !opener.has_failed(),
            out@ == blockviews.take(i as int).flatten(),
        decreases n - i,
    {
        let block = match opener.open(windows[i].as_slice()) {
            Ok(b) => b,
            Err(_) => {
                return vstd::pervasive::unreached();
            },
        };
        proof {
            assert(ctviews.take(i as int).push(ctviews[i as int]) =~= ctviews.take(i + 1));
        }
        let mut j: usize = 0;
        while j < block.len()
            invariant
                j <= block@.len(),
                out@ == blockviews.take(i as int).flatten() + block@.take(j as int),
            decreases block@.len() - j,
        {
            out.push(block[j]);
            proof {
                assert(blockviews.take(i as int).flatten() + block@.take(j + 1) =~= (
                blockviews.take(i as int).flatten() + block@.take(j as int)).push(
                    block@[j as int],
                ));
            }
            j = j + 1;
        }
        proof {
            let pre = blockviews.take(i as int);
            assert(block@.take(block@.len() as int) =~= block@);
            pre.lemma_flatten_push(block@);
            assert(pre.push(block@) =~= blockviews.take(i + 1));
            assert(out@ =~= blockviews.take(i + 1).flatten());
        }
        i = i + 1;
    }
    match opener.finish() {
        Ok(u) => u,
        Err(_) => {
            return vstd::pervasive::unreached();
        },
    };
    proof {
        assert(blockviews.take(total as int) =~= blockviews);
        assert(out@ == blockviews.flatten());
    }
    Ok(out)
}

} // verus!
