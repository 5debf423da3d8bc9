use sfs_core::errors::TransferError;
use sfs_core::multipart::{ConcurrentUploader, UploadPartResult};
use sfs_core::progress::{ProgressReporter, ProgressSample, ProgressStat};

fn part(n: u32) -> UploadPartResult {
    UploadPartResult { part_number: n, etag: format!("etag-{}", n) }
}

#[test]
fn four_parts_at_concurrency_two_run_as_two_batches_and_finalize_sorted() {
    let mut up = ConcurrentUploader::new(4, 2);

    let batch1 = up.start_batch();
    assert_eq!(batch1, vec![1, 2]);
    // the network resolves the batch out of order
    up.record_success(part(2));
    up.record_success(part(1));
    assert!(up.batch_resolved());
    assert!(up.has_unstarted_parts());

    let batch2 = up.start_batch();
    assert_eq!(batch2, vec![3, 4]);
    up.record_success(part(4));
    up.record_success(part(3));
    assert!(up.batch_resolved());
    assert!(!up.has_unstarted_parts());

    let parts = up.finish().unwrap();
    let numbers: Vec<u32> = parts.iter().map(|p| p.part_number).collect();
    assert_eq!(numbers, vec![1, 2, 3, 4]);
}

#[test]
fn five_parts_at_concurrency_two_need_a_short_third_batch() {
    let mut up = ConcurrentUploader::new(5, 2);
    assert_eq!(up.start_batch(), vec![1, 2]);
    up.record_success(part(1));
    up.record_success(part(2));
    assert_eq!(up.start_batch(), vec![3, 4]);
    up.record_success(part(4));
    up.record_success(part(3));
    assert_eq!(up.start_batch(), vec![5]);
    up.record_success(part(5));
    let parts = up.finish().unwrap();
    let numbers: Vec<u32> = parts.iter().map(|p| p.part_number).collect();
    assert_eq!(numbers, vec![1, 2, 3, 4, 5]);
}

#[test]
fn a_failed_part_fails_the_whole_transfer_after_its_batch_resolves() {
    let mut up = ConcurrentUploader::new(4, 2);
    let b = up.start_batch();
    assert_eq!(b, vec![1, 2]);
    up.record_failure(1, TransferError::TransportError);
    // the sibling is allowed to finish
    up.record_success(part(2));
    assert!(up.batch_resolved());
    assert!(up.any_failed());
    assert_eq!(up.finish().unwrap_err(), TransferError::PartialBatchFailure);
}

#[test]
fn progress_reporter_totals_are_additive_and_order_independent() {
    let mut a = ProgressReporter::new();
    a.offer(ProgressSample { bytes_delta: 100 });
    a.offer(ProgressSample { bytes_delta: 250 });
    let mut b = ProgressReporter::new();
    b.offer(ProgressSample { bytes_delta: 250 });
    b.offer(ProgressSample { bytes_delta: 100 });
    assert_eq!(a.total_observed(), 350);
    assert_eq!(b.total_observed(), 350);
}

#[test]
fn progress_reporter_coalesces_for_an_absent_consumer() {
    let mut r = ProgressReporter::new();
    for _ in 0..10 {
        r.offer(ProgressSample { bytes_delta: 7 });
    }
    assert_eq!(r.take_pending(), 70);
    assert_eq!(r.take_pending(), 0, "pending resets once taken");
    r.offer(ProgressSample { bytes_delta: 5 });
    assert_eq!(r.take_pending(), 5);
    assert_eq!(r.total_observed(), 75, "the total keeps growing");
}

#[test]
fn progress_stat_builders_set_their_fields() {
    let s = ProgressStat::default();
    assert!(s.total_len.is_none());
    assert_eq!(s.increment, 0);
    let s = s.with_total_len(1024).with_increment(64);
    assert_eq!(s.total_len, Some(1024));
    assert_eq!(s.increment, 64);
}

#[test]
fn transfer_errors_describe_themselves() {
    assert_eq!(
        TransferError::UnsupportedCombination.describe(),
        "currently, uploading encrypted files of multipart size is not supported!"
    );
    assert_eq!(TransferError::TruncatedStream.describe(), "stream ended before its final chunk!");
    assert!(TransferError::SourceIoError.describe().len() > 0);
    assert!(TransferError::TransportError.describe().len() > 0);
    assert!(TransferError::AuthenticationFailure.describe().len() > 0);
    assert!(TransferError::PartialBatchFailure.describe().len() > 0);
}
