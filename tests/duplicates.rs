use space_saver::api::{duplicate_candidates, FilterConfig, ScanResult, StorageStats};
use space_saver::duplicates::{group_duplicates, size_candidates};
use space_saver::hash::{Blake3Hash, FileHasher, HashAlgorithm, Sha256Hash};
use space_saver::scanner::{DefaultFileScanner, FileInfo, FileType};

fn file_with(path: &str, content: &[u8]) -> FileInfo {
    FileInfo {
        path: path.to_string(),
        size: content.len() as u64,
        modified: 0,
        file_type: DefaultFileScanner::determine_file_type(path),
        hash: None,
    }
}

/// Runs the whole search on in-memory contents: filter, size buckets, hash
/// the candidates, group.
fn find_duplicates(
    entries: &[(&str, Vec<u8>)],
    filter: Option<FilterConfig>,
) -> Vec<space_saver::duplicates::DuplicateGroup> {
    let files: Vec<FileInfo> = entries.iter().map(|(p, c)| file_with(p, c)).collect();
    let candidates = duplicate_candidates(files, &filter);
    let hasher = FileHasher::new_blake3();
    let hashed: Vec<FileInfo> = candidates
        .into_iter()
        .map(|mut f| {
            let content = &entries.iter().find(|(p, _)| *p == f.path).unwrap().1;
            f.hash = Some(hasher.hash_bytes(content));
            f
        })
        .collect();
    group_duplicates(&hashed)
}

fn info(path: &str, size: u64, hash: Option<&str>) -> FileInfo {
    FileInfo {
        path: path.to_string(),
        size,
        modified: 0,
        file_type: FileType::Other,
        hash: hash.map(|h| h.to_string()),
    }
}

#[test]
fn test_consistent_hashing() {
    let data = b"consistent data";
    let hasher = Blake3Hash;

    let hash1 = hasher.hash_bytes(data);
    let hash2 = hasher.hash_bytes(data);

    assert_eq!(hash1, hash2);
}

#[test]
fn test_blake3_hash() {
    let hasher = Blake3Hash;
    let data = b"test data";
    let hash = hasher.hash_bytes(data);
    assert!(!hash.is_empty());
    assert_eq!(hash.len(), 64);
}

#[test]
fn test_sha256_hash() {
    let hasher = Sha256Hash;
    let data = b"test data";
    let hash = hasher.hash_bytes(data);
    assert!(!hash.is_empty());
    assert_eq!(hash.len(), 64);
}

#[test]
fn sha256_of_empty_input_is_the_known_digest() {
    let hash = FileHasher::new_sha256().hash_bytes(b"");
    assert_eq!(hash, "e3b0c44298fc1c149afbf4c8996fb92427ae41e4649b934ca495991b7852b855");
}

#[test]
fn blake3_of_empty_input_is_the_known_digest() {
    let hash = FileHasher::new_blake3().hash_bytes(b"");
    assert_eq!(hash, "af1349b9f5f9a1a6a0404dea36dcc9499bcb25c9adc112b7cc9a93cae41f3262");
}

#[test]
fn different_contents_hash_differently() {
    let h = FileHasher::new_blake3();
    assert_ne!(h.hash_bytes(b"Hello, World!"), h.hash_bytes(b"Different content"));
}

#[test]
fn test_find_duplicates_without_filter() {
    let large = vec![b'A'; 2_000_000];
    let entries = vec![
        ("dir/file1.txt", b"Hello, World!".to_vec()),
        ("dir/file2.txt", b"Hello, World!".to_vec()),
        ("dir/file3.txt", b"Different content".to_vec()),
        ("dir/large1.bin", large.clone()),
        ("dir/large2.bin", large),
    ];
    let duplicates = find_duplicates(&entries, None);
    assert_eq!(duplicates.len(), 2, "Should find 2 duplicate groups");
    for group in &duplicates {
        assert_eq!(group.count, 2, "Each group should have 2 files");
        assert_eq!(group.files.len(), 2);
    }
}

#[test]
fn test_find_duplicates_with_min_size_filter() {
    let large = vec![b'A'; 1_000_000];
    let entries = vec![
        ("dir/small1.txt", b"Small".to_vec()),
        ("dir/small2.txt", b"Small".to_vec()),
        ("dir/large1.bin", large.clone()),
        ("dir/large2.bin", large),
    ];
    let filter = FilterConfig {
        min_size: Some(100_000),
        max_size: None,
        extensions: None,
        file_pattern: None,
    };
    let duplicates = find_duplicates(&entries, Some(filter));
    assert_eq!(duplicates.len(), 1, "Should find only 1 duplicate group (large files)");
    assert_eq!(duplicates[0].count, 2);
    for file in &duplicates[0].files {
        assert!(file.size >= 100_000, "All files should be >= 100KB");
    }
}

#[test]
fn test_find_duplicates_with_max_size_filter() {
    let large = vec![b'A'; 1_000_000];
    let entries = vec![
        ("dir/small1.txt", b"Small".to_vec()),
        ("dir/small2.txt", b"Small".to_vec()),
        ("dir/large1.bin", large.clone()),
        ("dir/large2.bin", large),
    ];
    let filter = FilterConfig {
        min_size: None,
        max_size: Some(1000),
        extensions: None,
        file_pattern: None,
    };
    let duplicates = find_duplicates(&entries, Some(filter));
    assert_eq!(duplicates.len(), 1, "Should find only 1 duplicate group (small files)");
    assert_eq!(duplicates[0].count, 2);
    for file in &duplicates[0].files {
        assert!(file.size <= 1000, "All files should be <= 1KB");
    }
}

#[test]
fn test_find_duplicates_with_extension_filter() {
    let entries = vec![
        ("dir/doc1.txt", b"Text content".to_vec()),
        ("dir/doc2.txt", b"Text content".to_vec()),
        ("dir/data1.bin", b"Binary content".to_vec()),
        ("dir/data2.bin", b"Binary content".to_vec()),
    ];
    let filter = FilterConfig {
        min_size: None,
        max_size: None,
        extensions: Some(vec!["txt".to_string()]),
        file_pattern: None,
    };
    let duplicates = find_duplicates(&entries, Some(filter));
    assert_eq!(duplicates.len(), 1, "Should find only 1 duplicate group (.txt files)");
    assert_eq!(duplicates[0].count, 2);
    for file in &duplicates[0].files {
        assert!(file.path.ends_with(".txt"), "All files should be .txt");
    }
}

#[test]
fn test_find_duplicates_with_pattern_filter() {
    let entries = vec![
        ("dir/report_2024.txt", b"Report content".to_vec()),
        ("dir/report_2025.txt", b"Report content".to_vec()),
        ("dir/data_old.txt", b"Data content".to_vec()),
        ("dir/data_new.txt", b"Data content".to_vec()),
    ];
    let filter = FilterConfig {
        min_size: None,
        max_size: None,
        extensions: None,
        file_pattern: Some("report".to_string()),
    };
    let duplicates = find_duplicates(&entries, Some(filter));
    assert_eq!(duplicates.len(), 1, "Should find only 1 duplicate group (report files)");
    assert_eq!(duplicates[0].count, 2);
    for file in &duplicates[0].files {
        assert!(file.path.contains("report"), "All files should contain 'report' in name");
    }
}

#[test]
fn test_find_duplicates_with_combined_filters() {
    let large = vec![b'A'; 200_000];
    let entries = vec![
        ("dir/small.txt", b"Small".to_vec()),
        ("dir/large1.txt", large.clone()),
        ("dir/large2.txt", large.clone()),
        ("dir/large1.bin", large.clone()),
        ("dir/large2.bin", large),
    ];
    let filter = FilterConfig {
        min_size: Some(100_000),
        max_size: None,
        extensions: Some(vec!["txt".to_string()]),
        file_pattern: None,
    };
    let duplicates = find_duplicates(&entries, Some(filter));
    assert_eq!(duplicates.len(), 1, "Should find only 1 duplicate group (large .txt files)");
    assert_eq!(duplicates[0].count, 2);
    for file in &duplicates[0].files {
        assert!(file.size >= 100_000, "Files should be >= 100KB");
        assert!(file.path.ends_with(".txt"), "Files should be .txt");
    }
}

#[test]
fn test_find_duplicates_multiple_paths() {
    let entries = vec![
        ("first/file1.txt", b"Shared content".to_vec()),
        ("second/file2.txt", b"Shared content".to_vec()),
    ];
    let duplicates = find_duplicates(&entries, None);
    assert_eq!(duplicates.len(), 1, "Should find 1 duplicate group across directories");
    assert_eq!(duplicates[0].count, 2);
}

#[test]
fn unique_file_is_in_no_group() {
    let entries = vec![
        ("d/a.txt", b"Hello, World!".to_vec()),
        ("d/b.txt", b"Hello, World!".to_vec()),
        ("d/c.txt", b"Different content".to_vec()),
    ];
    let duplicates = find_duplicates(&entries, None);
    assert_eq!(duplicates.len(), 1);
    assert_eq!(duplicates[0].files.len(), 2);
    assert!(duplicates
        .iter()
        .all(|g| g.files.iter().all(|f| f.path != "d/c.txt")));
}

#[test]
fn min_size_filter_keeps_only_the_large_pair() {
    let large = vec![b'Z'; 200_000];
    let entries = vec![
        ("d/s1", b"12345".to_vec()),
        ("d/s2", b"12345".to_vec()),
        ("d/l1", large.clone()),
        ("d/l2", large),
    ];
    let filter = FilterConfig {
        min_size: Some(100_000),
        max_size: None,
        extensions: None,
        file_pattern: None,
    };
    let duplicates = find_duplicates(&entries, Some(filter));
    assert_eq!(duplicates.len(), 1);
    assert!(duplicates[0].files.iter().all(|f| f.size == 200_000));
    assert_eq!(duplicates[0].total_size, 400_000);
    assert_eq!(duplicates[0].wasted_space, 200_000);
}

#[test]
fn group_totals_follow_member_size() {
    let files = vec![
        info("a", 10, Some("h")),
        info("b", 10, Some("h")),
        info("c", 10, Some("h")),
        info("d", 7, Some("x")),
    ];
    let groups = group_duplicates(&files);
    assert_eq!(groups.len(), 1);
    assert_eq!(groups[0].hash, "h");
    assert_eq!(groups[0].count, 3);
    assert_eq!(groups[0].total_size, 30);
    assert_eq!(groups[0].wasted_space, 20);
    let paths: Vec<&str> = groups[0].files.iter().map(|f| f.path.as_str()).collect();
    assert_eq!(paths, vec!["a", "b", "c"]);
}

#[test]
fn equal_hashes_of_different_sizes_are_not_grouped() {
    let files = vec![info("a", 10, Some("h")), info("b", 11, Some("h"))];
    assert!(group_duplicates(&files).is_empty());
}

#[test]
fn unhashed_files_are_left_out() {
    let files = vec![
        info("a", 10, Some("h")),
        info("b", 10, None),
        info("c", 10, Some("h")),
    ];
    let groups = group_duplicates(&files);
    assert_eq!(groups.len(), 1);
    assert_eq!(groups[0].count, 2);
    assert!(groups[0].files.iter().all(|f| f.path != "b"));
}

#[test]
fn empty_files_are_duplicates_of_each_other() {
    let entries = vec![("d/e1", Vec::new()), ("d/e2", Vec::new()), ("d/x", b"x".to_vec())];
    let duplicates = find_duplicates(&entries, None);
    assert_eq!(duplicates.len(), 1);
    assert_eq!(duplicates[0].count, 2);
    assert_eq!(duplicates[0].total_size, 0);
    assert_eq!(duplicates[0].wasted_space, 0);
}

#[test]
fn grouping_twice_gives_the_same_groups() {
    let files = vec![
        info("a", 1, Some("p")),
        info("b", 2, Some("q")),
        info("c", 1, Some("p")),
        info("d", 2, Some("q")),
        info("e", 3, Some("r")),
    ];
    let first = group_duplicates(&files);
    let second = group_duplicates(&files);
    let members = |gs: &Vec<space_saver::duplicates::DuplicateGroup>| -> Vec<Vec<String>> {
        let mut v: Vec<Vec<String>> = gs
            .iter()
            .map(|g| g.files.iter().map(|f| f.path.clone()).collect())
            .collect();
        v.sort();
        v
    };
    assert_eq!(members(&first), members(&second));
    assert_eq!(members(&first), vec![vec!["a".to_string(), "c".to_string()], vec!["b".to_string(), "d".to_string()]]);
}

#[test]
fn files_with_a_size_of_their_own_are_not_candidates() {
    let files = vec![info("a", 5, None), info("b", 6, None), info("c", 5, None)];
    let c = size_candidates(&files);
    let paths: Vec<&str> = c.iter().map(|f| f.path.as_str()).collect();
    assert_eq!(paths, vec!["a", "c"]);
}

#[test]
fn scan_result_counts_and_sums() {
    let r = ScanResult::from_files("dir".to_string(), vec![info("a", 3, None), info("b", 4, None)]);
    assert_eq!(r.file_count, 2);
    assert_eq!(r.total_size, 7);
    assert_eq!(r.path, "dir");
}

#[test]
fn storage_stats_count_kinds_and_empty_files() {
    let files = vec![
        file_with("a.jpg", b"12"),
        file_with("b.mp4", b""),
        file_with("c.txt", b"123"),
        file_with("d.zip", b"1"),
        file_with("e.xyz", b""),
    ];
    let s = StorageStats::of_files(&files);
    assert_eq!(s.total_files, 5);
    assert_eq!(s.total_size, 6);
    assert_eq!(s.images, 1);
    assert_eq!(s.videos, 1);
    assert_eq!(s.documents, 1);
    assert_eq!(s.archives, 1);
    assert_eq!(s.others, 1);
    assert_eq!(s.empty_files, 2);
}
