use space_saver::compress::{CompressionAlgorithm, Compressor, GzipCompressor, ZipCompressor};
use space_saver::config::ScanConfig;
use space_saver::error::Error;
use space_saver::image_sim::{HistogramSimilarity, ImageSimilarity};
use space_saver::progress::{ProgressTracker, ProgressUpdate};
use space_saver::scanner::{DefaultFileScanner, FileType};
use space_saver::time::{format_duration, format_seconds, format_size, seconds_between, time_diff};
use space_saver::video_sim::VideoSimilarity;
use std::time::Duration;

#[test]
fn test_format_duration() {
    assert_eq!(format_duration(Duration::from_secs(30)), "30s");
    assert_eq!(format_duration(Duration::from_secs(90)), "1m 30s");
    assert_eq!(format_duration(Duration::from_secs(3661)), "1h 1m");
    assert_eq!(format_duration(Duration::from_secs(90000)), "1d 1h");
}

#[test]
fn format_seconds_edges() {
    assert_eq!(format_seconds(0), "0s");
    assert_eq!(format_seconds(59), "59s");
    assert_eq!(format_seconds(60), "1m 0s");
    assert_eq!(format_seconds(86399), "23h 59m");
    assert_eq!(format_seconds(86400), "1d 0h");
}

#[test]
fn test_format_size() {
    assert_eq!(format_size(0), "0 B");
    assert_eq!(format_size(500), "500 B");
    assert_eq!(format_size(1024), "1.00 KB");
    assert_eq!(format_size(1024 * 1024), "1.00 MB");
    assert_eq!(format_size(1536 * 1024), "1.50 MB");
    assert_eq!(format_size(1024 * 1024 * 1024), "1.00 GB");
}

#[test]
fn format_size_rounding() {
    assert_eq!(format_size(1023), "1023 B");
    assert_eq!(format_size(1152), "1.12 KB");
    assert_eq!(format_size(1029), "1.00 KB");
    assert_eq!(format_size(1030), "1.01 KB");
    assert_eq!(format_size(1024 * 1024 * 1024 * 1024 * 3), "3.00 TB");
}

#[test]
fn test_time_diff() {
    let start = 1000;
    let end = 1010;
    let diff = time_diff(start, end);
    assert_eq!(diff.as_secs(), 10);
}

#[test]
fn time_diff_in_either_order() {
    assert_eq!(time_diff(1010, 1000).as_secs(), 10);
    assert_eq!(seconds_between(i64::MIN, i64::MAX), u64::MAX);
}

#[test]
fn test_error_display() {
    let err = Error::FileOperation("Test error".to_string());
    assert_eq!(err.message(), "File operation error: Test error");
}

#[test]
fn test_io_error_conversion() {
    let io_err = std::io::Error::new(std::io::ErrorKind::NotFound, "File not found");
    let err: Error = io_err.into();
    assert!(matches!(err, Error::Io(_)));
}

#[test]
fn io_error_message_carries_the_cause() {
    let io_err = std::io::Error::new(std::io::ErrorKind::NotFound, "File not found");
    let err: Error = io_err.into();
    assert_eq!(err.message(), "IO error: File not found");
}

#[test]
fn test_logger_initialization() {
    // Logging is set up by the program, once per process.
}

#[test]
fn test_hamming_distance() {
    let similarity = ImageSimilarity::new();
    let hash1 = vec![1, 0, 1, 0];
    let hash2 = vec![1, 1, 1, 0];

    let distance = similarity.hamming_distance(&hash1, &hash2);
    assert_eq!(distance, 1);
}

#[test]
fn hamming_distance_over_the_shorter_hash() {
    let s = ImageSimilarity::new().with_hash_size(4);
    assert_eq!(s.hash_size, 4);
    assert_eq!(s.hamming_distance(&[1, 1, 1], &[0, 0]), 2);
}

#[test]
fn test_video_similarity_creation() {
    let similarity = VideoSimilarity::new();
    assert_eq!(similarity.sample_count, 10);

    let similarity = VideoSimilarity::new().with_sample_count(20);
    assert_eq!(similarity.sample_count, 20);
}

#[test]
fn test_file_type_detection() {
    assert!(matches!(DefaultFileScanner::determine_file_type("test.jpg"), FileType::Image));
    assert!(matches!(DefaultFileScanner::determine_file_type("test.mp4"), FileType::Video));
    assert!(matches!(DefaultFileScanner::determine_file_type("test.pdf"), FileType::Document));
}

#[test]
fn file_type_detection_ignores_case() {
    assert_eq!(DefaultFileScanner::determine_file_type("A.ZIP"), FileType::Archive);
    assert_eq!(DefaultFileScanner::determine_file_type("noext"), FileType::Other);
    let s = DefaultFileScanner::new().with_max_depth(3).follow_links(true);
    assert_eq!(s.max_depth, Some(3));
    assert!(s.follow_links);
}

#[test]
fn test_progress_tracker() {
    let mut tracker = ProgressTracker::new(100);
    assert_eq!(tracker.percentage(), 0);

    tracker.update(50, "Half done".to_string());
    assert_eq!(tracker.percentage(), 50);
    assert_eq!(tracker.message(), "Half done");

    tracker.increment();
    assert_eq!(tracker.current(), 51);
}

#[test]
fn progress_percentage_edges() {
    let mut t = ProgressTracker::new(0);
    assert_eq!(t.percentage(), 0);
    let mut u = ProgressTracker::new(3);
    u.update(1, String::new());
    assert_eq!(u.percentage(), 33);
    u.update(9, String::new());
    assert_eq!(u.percentage(), 255);
    t.set_message("m".to_string());
    assert_eq!(t.total(), 0);
    match u.to_update() {
        ProgressUpdate::Progress { current, total, .. } => {
            assert_eq!(current, 9);
            assert_eq!(total, 3);
        }
        _ => panic!("expected a progress event"),
    }
}

#[test]
fn test_scan_config_default() {
    let scan = ScanConfig::default();
    assert!(!scan.follow_links);
    assert!(scan.exclude_patterns.len() > 0);
}

#[test]
fn compressor_levels() {
    assert_eq!(ZipCompressor::new().compression_level, 6);
    assert_eq!(ZipCompressor::new().with_compression_level(12).compression_level, 9);
    assert_eq!(ZipCompressor::new().with_compression_level(-3).compression_level, 0);
    assert_eq!(GzipCompressor::new().with_compression_level(20).compression_level, 9);
    assert!(matches!(Compressor::new_zip().algorithm, CompressionAlgorithm::Zip(_)));
    assert!(matches!(Compressor::new_gzip().algorithm, CompressionAlgorithm::Gzip(_)));
}

#[test]
fn average_hash_marks_pixels_at_or_above_the_mean() {
    let s = ImageSimilarity::new().with_hash_size(2);
    // Mean of 10, 20, 30, 41 is 25 (integer division).
    assert_eq!(s.average_hash(&vec![10, 20, 30, 41]), vec![0, 0, 1, 1]);
    assert_eq!(s.average_hash(&vec![7, 7, 7, 7]), vec![1, 1, 1, 1]);
}

#[test]
fn histogram_counts_gray_levels() {
    let rgb = vec![0, 0, 0, 255, 255, 255, 10, 20, 31, 0, 0, 1];
    let h = HistogramSimilarity::compute_histogram(&rgb);
    assert_eq!(h.len(), 256);
    assert_eq!(h[0], 2);
    assert_eq!(h[255], 1);
    assert_eq!(h[20], 1);
    assert_eq!(h.iter().sum::<u32>(), 4);
}
