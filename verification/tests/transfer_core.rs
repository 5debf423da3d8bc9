use sfs_core::assemble::{new_downloader, DownloadAssembler};
use sfs_core::block::{read_all_blocks, BlockReader};
use sfs_core::crypto::{new_decryptor, new_encryptor, seal_open_round_trip, DecryptError};
use sfs_core::errors::TransferError;
use sfs_core::metadata::EncryptionMetadata;
use sfs_core::plan::{part_range, plan, UploadPlan};
use sfs_core::uploads::seal_blocks;

fn sample_bytes(n: usize) -> Vec<u8> {
    let mut v = Vec::new();
    for i in 0..n {
        v.push((i * 7 + 13) as u8);
    }
    v
}

#[test]
fn block_reader_splits_ten_bytes_into_4_4_2() {
    let source = sample_bytes(10);
    let blocks = read_all_blocks(&source, 4);
    assert_eq!(blocks.len(), 3);
    assert_eq!(blocks[0].len(), 4);
    assert_eq!(blocks[1].len(), 4);
    assert_eq!(blocks[2].len(), 2);
    let mut joined: Vec<u8> = Vec::new();
    for b in &blocks {
        joined.extend_from_slice(b);
    }
    assert_eq!(joined, source);
}

#[test]
fn block_reader_empty_source_yields_one_empty_terminal_block() {
    let source: Vec<u8> = Vec::new();
    let blocks = read_all_blocks(&source, 4);
    assert_eq!(blocks.len(), 1);
    assert_eq!(blocks[0].len(), 0);
}

#[test]
fn block_reader_counts_are_ceil_of_len_over_block_size() {
    for (len, bs, expect) in [(8usize, 4u32, 2usize), (9, 4, 3), (1, 4, 1), (4, 4, 1), (5, 5, 1)] {
        let source = sample_bytes(len);
        let blocks = read_all_blocks(&source, bs);
        assert_eq!(blocks.len(), expect, "len {} bs {}", len, bs);
        let mut joined: Vec<u8> = Vec::new();
        for b in &blocks {
            joined.extend_from_slice(b);
        }
        assert_eq!(joined, source);
    }
}

#[test]
fn block_reader_incremental_feed_matches_whole_source() {
    let mut reader = BlockReader::new(4);
    let mut got: Vec<Vec<u8>> = Vec::new();
    for chunk in [&[1u8, 2, 3][..], &[4, 5, 6, 7, 8][..], &[9, 10][..]] {
        got.extend(reader.feed(chunk));
    }
    got.push(reader.finish());
    assert_eq!(got.len(), 3);
    assert_eq!(got[0], vec![1, 2, 3, 4]);
    assert_eq!(got[1], vec![5, 6, 7, 8]);
    assert_eq!(got[2], vec![9, 10]);
}

#[test]
fn planner_chooses_multipart_layout() {
    let p = plan(Some(12_000_000), 5_000_000, false).unwrap();
    assert_eq!(p, UploadPlan::Multipart { chunk_size: 5_000_000, part_count: 3 });
}

#[test]
fn planner_chooses_simple_for_unknown_or_small() {
    assert_eq!(plan(None, 5_000_000, false).unwrap(), UploadPlan::Simple);
    assert_eq!(plan(Some(4_999_999), 5_000_000, true).unwrap(), UploadPlan::Simple);
    assert_eq!(plan(Some(5_000_000), 5_000_000, false).unwrap(), UploadPlan::Multipart {
        chunk_size: 5_000_000,
        part_count: 1,
    });
}

#[test]
fn planner_rejects_encryption_at_or_above_threshold() {
    assert_eq!(
        plan(Some(5_000_000), 5_000_000, true).unwrap_err(),
        TransferError::UnsupportedCombination
    );
    assert_eq!(
        plan(Some(9_999_999_999), 5_000_000, true).unwrap_err(),
        TransferError::UnsupportedCombination
    );
}

#[test]
fn part_ranges_cover_the_source() {
    assert_eq!(part_range(12_000_000, 5_000_000, 1), (0, 5_000_000));
    assert_eq!(part_range(12_000_000, 5_000_000, 2), (5_000_000, 5_000_000));
    assert_eq!(part_range(12_000_000, 5_000_000, 3), (10_000_000, 2_000_000));
}

#[test]
fn assembler_rewindows_3_5_2_chunks_into_4_4_2() {
    let mut assembler = DownloadAssembler::new(4);
    let data = sample_bytes(10);
    let mut windows: Vec<Vec<u8>> = Vec::new();
    windows.extend(assembler.feed(&data[0..3]));
    assert_eq!(windows.len(), 0, "3 bytes are held pending");
    windows.extend(assembler.feed(&data[3..8]));
    assert_eq!(windows.len(), 1, "one full window out, the rest pending");
    windows.extend(assembler.feed(&data[8..10]));
    if let Some(last) = assembler.flush() {
        windows.push(last);
    }
    let lens: Vec<usize> = windows.iter().map(|w| w.len()).collect();
    assert_eq!(lens, vec![4, 4, 2]);
    let mut joined: Vec<u8> = Vec::new();
    for w in &windows {
        joined.extend_from_slice(w);
    }
    assert_eq!(joined, data);
}

#[test]
fn assembler_flush_on_empty_stream_is_none() {
    let mut assembler = DownloadAssembler::new(4);
    assert!(assembler.flush().is_none());
}

#[test]
fn seal_then_open_recovers_blocks() {
    let blocks = vec![sample_bytes(16), sample_bytes(16), sample_bytes(5)];
    let out = seal_open_round_trip("correct horse", &blocks).unwrap();
    assert_eq!(out, blocks);
}

#[test]
fn seal_then_open_recovers_single_empty_block() {
    let blocks = vec![Vec::new()];
    let out = seal_open_round_trip("pw", &blocks).unwrap();
    assert_eq!(out, blocks);
}

#[test]
fn sealed_chunks_carry_17_bytes_of_overhead() {
    let mut sealer = new_encryptor("pw").unwrap();
    let blocks = vec![sample_bytes(8), sample_bytes(3)];
    let chunks = seal_blocks(&mut sealer, &blocks);
    assert_eq!(chunks.len(), 2);
    assert_eq!(chunks[0].len(), 8 + 17);
    assert_eq!(chunks[1].len(), 3 + 17);
}

#[test]
fn opening_with_wrong_password_fails_on_every_chunk() {
    let mut sealer = new_encryptor("right password").unwrap();
    let blocks = vec![sample_bytes(8), sample_bytes(8), sample_bytes(2)];
    let chunks = seal_blocks(&mut sealer, &blocks);
    let salt = sealer.salt_bytes();
    let nonce = sealer.nonce_bytes();
    for chunk in &chunks {
        let mut opener = new_decryptor("wrong password", &salt, &nonce).unwrap();
        assert_eq!(opener.open(chunk).unwrap_err(), DecryptError::AuthenticationFailure);
    }
}

#[test]
fn dropping_a_middle_chunk_never_silently_succeeds() {
    let mut sealer = new_encryptor("pw").unwrap();
    let blocks = vec![sample_bytes(8), sample_bytes(8), sample_bytes(2)];
    let chunks = seal_blocks(&mut sealer, &blocks);
    let salt = sealer.salt_bytes();
    let nonce = sealer.nonce_bytes();
    let mut opener = new_decryptor("pw", &salt, &nonce).unwrap();
    let first = opener.open(&chunks[0]).unwrap();
    assert_eq!(first, blocks[0]);
    // the middle chunk is dropped: the tail chunk must not open here
    assert_eq!(opener.open(&chunks[2]).unwrap_err(), DecryptError::AuthenticationFailure);
}

#[test]
fn truncated_stream_is_reported_as_truncation_not_auth_failure() {
    let mut sealer = new_encryptor("pw").unwrap();
    let blocks = vec![sample_bytes(8), sample_bytes(8), sample_bytes(2)];
    let chunks = seal_blocks(&mut sealer, &blocks);
    let salt = sealer.salt_bytes();
    let nonce = sealer.nonce_bytes();
    let mut opener = new_decryptor("pw", &salt, &nonce).unwrap();
    assert_eq!(opener.open(&chunks[0]).unwrap(), blocks[0]);
    assert_eq!(opener.open(&chunks[1]).unwrap(), blocks[1]);
    // the Finish-tagged chunk never arrives
    assert!(!opener.finished());
    assert_eq!(opener.finish().unwrap_err(), DecryptError::TruncatedStream);
}

#[test]
fn downloader_decrypts_a_rechunked_network_stream() {
    let block_size: u32 = 4;
    let mut sealer = new_encryptor("stream pw").unwrap();
    let source = sample_bytes(10);
    let blocks = read_all_blocks(&source, block_size);
    let chunks = seal_blocks(&mut sealer, &blocks);
    let mut wire: Vec<u8> = Vec::new();
    for c in &chunks {
        wire.extend_from_slice(c);
    }

    let metadata = sealer.into_encryption_metadata(Some(block_size));
    let mut down = new_downloader(&metadata, Some("stream pw")).unwrap();
    let mut plain: Vec<u8> = Vec::new();
    // network chunk sizes unrelated to the sealed window size
    let mut i = 0;
    for step in [3usize, 5, 2, 11, 9, 23, 7] {
        let end = (i + step).min(wire.len());
        for b in down.push(&wire[i..end]).unwrap() {
            plain.extend_from_slice(&b);
        }
        i = end;
        if i == wire.len() {
            break;
        }
    }
    while i < wire.len() {
        let end = (i + 13).min(wire.len());
        for b in down.push(&wire[i..end]).unwrap() {
            plain.extend_from_slice(&b);
        }
        i = end;
    }
    if let Some(last) = down.finish().unwrap() {
        plain.extend_from_slice(&last);
    }
    assert_eq!(plain, source);
}

#[test]
fn downloader_passes_bytes_through_when_not_encrypted() {
    let metadata = EncryptionMetadata::default_zipfile();
    let mut down = new_downloader(&metadata, None).unwrap();
    let data = sample_bytes(37);
    let mut out: Vec<u8> = Vec::new();
    for b in down.push(&data).unwrap() {
        out.extend_from_slice(&b);
    }
    assert!(down.finish().unwrap().is_none());
    assert_eq!(out, data);
}

#[test]
fn downloader_reports_truncation_of_an_encrypted_stream() {
    let block_size: u32 = 4;
    let mut sealer = new_encryptor("pw").unwrap();
    let blocks = read_all_blocks(&sample_bytes(10), block_size);
    let chunks = seal_blocks(&mut sealer, &blocks);
    let mut wire: Vec<u8> = Vec::new();
    for c in &chunks[0..2] {
        wire.extend_from_slice(c);
    }
    let metadata = sealer.into_encryption_metadata(Some(block_size));
    let mut down = new_downloader(&metadata, Some("pw")).unwrap();
    down.push(&wire).unwrap();
    assert_eq!(down.finish().unwrap_err(), DecryptError::TruncatedStream);
}

#[test]
fn downloader_without_password_is_refused_for_encrypted_metadata() {
    let mut sealer = new_encryptor("pw").unwrap();
    let metadata = sealer.into_encryption_metadata(Some(4));
    assert!(new_downloader(&metadata, None).is_err());
    let _ = sealer.seal(&[0u8; 4], true);
}

#[test]
fn downloader_empty_encrypted_stream_is_truncated() {
    let mut sealer = new_encryptor("pw").unwrap();
    let metadata = sealer.into_encryption_metadata(Some(4));
    let _ = sealer.seal(&[0u8; 4], true);
    let mut down = new_downloader(&metadata, Some("pw")).unwrap();
    assert_eq!(down.finish().unwrap_err(), DecryptError::TruncatedStream);
}

#[test]
fn whole_pipeline_round_trip_over_odd_network_chunks() {
    let source = sample_bytes(100);
    let out = sfs_core::pipeline::transfer_round_trip("pw", &source, 7, 13).unwrap();
    assert_eq!(out, source);
    let exact = sample_bytes(32);
    let out = sfs_core::pipeline::transfer_round_trip("pw", &exact, 8, 5).unwrap();
    assert_eq!(out, exact);
    let empty: Vec<u8> = Vec::new();
    let out = sfs_core::pipeline::transfer_round_trip("pw", &empty, 4, 3).unwrap();
    assert_eq!(out, empty);
}

#[test]
fn multipart_size_refusal_precedes_key_derivation() {
    // even an unusable (empty) password is refused for the size reason first
    let metadata = sfs_core::metadata::UploadBlobMetadata {
        name: "big".to_string(),
        content_type: None,
        is_public: false,
        encryption: None,
        cache_max_age_seconds: None,
        dir_path: "/".to_string(),
        force_write: false,
        deleted_at: None,
    };
    let opts = sfs_core::uploads::UploadFileOpts::new("/tmp/big".to_string(), Some(String::new()));
    let err = match sfs_core::uploads::prepare_upload(metadata, &opts, 100 * 1024 * 1024) {
        Err(e) => e,
        Ok(_) => panic!("a multipart-sized encrypted upload must be refused"),
    };
    assert_eq!(err, TransferError::UnsupportedCombination);
}

#[test]
fn planner_handles_the_largest_source() {
    let p = plan(Some(u64::MAX), 1, false).unwrap();
    assert_eq!(p, UploadPlan::Multipart { chunk_size: 1, part_count: u64::MAX });
}
