use space_saver::filters::{
    AndFilter, Criterion, EmptyFileFilter, ExtensionFilter, FileFilter, Filter, FilterRule,
    HiddenFileFilter, MaxSizeFilter, MinSizeFilter, OrFilter, PatternFilter,
};
use space_saver::scanner::{FileInfo, FileType};

fn create_test_file(path: &str, size: u64) -> FileInfo {
    FileInfo {
        path: path.to_string(),
        size,
        modified: 0,
        file_type: FileType::Other,
        hash: None,
    }
}

#[test]
fn test_min_size_filter() {
    let filter = MinSizeFilter::new(1000);
    let file1 = create_test_file("test1.txt", 500);
    let file2 = create_test_file("test2.txt", 1500);

    assert!(!filter.apply(&file1));
    assert!(filter.apply(&file2));
}

#[test]
fn test_max_size_filter() {
    let filter = MaxSizeFilter::new(1000);
    let file1 = create_test_file("test1.txt", 500);
    let file2 = create_test_file("test2.txt", 1500);

    assert!(filter.apply(&file1));
    assert!(!filter.apply(&file2));
}

#[test]
fn test_extension_filter() {
    let filter = ExtensionFilter::new(vec!["txt".to_string(), "doc".to_string()]);
    let file1 = create_test_file("test.txt", 100);
    let file2 = create_test_file("test.pdf", 100);

    assert!(filter.apply(&file1));
    assert!(!filter.apply(&file2));
}

#[test]
fn test_pattern_filter() {
    let filter = PatternFilter::new("backup".to_string());
    let file1 = create_test_file("backup_2024.txt", 100);
    let file2 = create_test_file("document.txt", 100);

    assert!(filter.apply(&file1));
    assert!(!filter.apply(&file2));
}

#[test]
fn test_empty_file_filter() {
    let filter = EmptyFileFilter;
    let file1 = create_test_file("empty.txt", 0);
    let file2 = create_test_file("nonempty.txt", 100);

    assert!(filter.apply(&file1));
    assert!(!filter.apply(&file2));
}

#[test]
fn test_and_filter() {
    let filter = AndFilter::new()
        .add(Criterion::MinSize(MinSizeFilter::new(100)))
        .add(Criterion::MaxSize(MaxSizeFilter::new(1000)));

    let file1 = create_test_file("test1.txt", 50);
    let file2 = create_test_file("test2.txt", 500);
    let file3 = create_test_file("test3.txt", 1500);

    assert!(!filter.apply(&file1));
    assert!(filter.apply(&file2));
    assert!(!filter.apply(&file3));
}

#[test]
fn or_filter_accepts_either() {
    let filter = OrFilter::new()
        .add(Criterion::Empty(EmptyFileFilter))
        .add(Criterion::MinSize(MinSizeFilter::new(1000)));
    assert!(filter.apply(&create_test_file("a", 0)));
    assert!(filter.apply(&create_test_file("a", 2000)));
    assert!(!filter.apply(&create_test_file("a", 10)));
    assert!(!OrFilter::new().apply(&create_test_file("a", 0)));
    assert!(AndFilter::new().apply(&create_test_file("a", 0)));
}

#[test]
fn hidden_file_filter_looks_at_the_name() {
    let filter = HiddenFileFilter;
    assert!(filter.apply(&create_test_file("dir/.bashrc", 1)));
    assert!(!filter.apply(&create_test_file(".dir/visible", 1)));
}

#[test]
fn extension_filter_ignores_case_and_needs_an_extension() {
    let filter = ExtensionFilter::new(vec!["TXT".to_string()]);
    assert!(filter.apply(&create_test_file("notes.Txt", 1)));
    assert!(!filter.apply(&create_test_file("txt", 1)));
    assert!(!filter.apply(&create_test_file(".txt", 1)));
}

#[test]
fn pattern_filter_looks_at_the_file_name_only() {
    let filter = PatternFilter::new("backup".to_string());
    assert!(!filter.apply(&create_test_file("backup/notes.txt", 1)));
}

#[test]
fn file_filter_keeps_order() {
    let filter = FileFilter::min_size(10);
    let kept = filter.filter_files(vec![
        create_test_file("a", 10),
        create_test_file("b", 5),
        create_test_file("c", 30),
    ]);
    let names: Vec<&str> = kept.iter().map(|f| f.path.as_str()).collect();
    assert_eq!(names, vec!["a", "c"]);
    let all = FileFilter::new(FilterRule::All(AndFilter::new()));
    assert_eq!(all.filter_files(vec![create_test_file("x", 1)]).len(), 1);
    assert!(FileFilter::hidden_files().apply(&create_test_file(".h", 1)));
    assert!(FileFilter::empty_files().apply(&create_test_file("e", 0)));
    assert!(FileFilter::max_size(3).apply(&create_test_file("e", 3)));
    assert!(FileFilter::extensions(vec!["md".to_string()]).apply(&create_test_file("r.MD", 3)));
    assert!(FileFilter::pattern("ab".to_string()).apply(&create_test_file("xaby", 3)));
}
