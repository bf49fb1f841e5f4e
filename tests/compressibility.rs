use space_saver::compress_plugins::{PluginManager, PluginMetadata, PluginProfile};
use space_saver::compressibility::{contains_text, merge_extensions, supports};

fn profile(name: &str, extensions: &[&str]) -> PluginProfile {
    PluginProfile {
        metadata: PluginMetadata {
            name: name.to_string(),
            description: String::new(),
            version: "1.0.0".to_string(),
        },
        extensions: extensions.iter().map(|s| s.to_string()).collect(),
    }
}

fn strings(v: &[&str]) -> Vec<String> {
    v.iter().map(|s| s.to_string()).collect()
}

fn manager() -> PluginManager {
    let mut m = PluginManager::new();
    m.register(profile("Image ZIP to WebP ZIP", &["zip"]));
    m.register(profile("WebP Converter", &["png", "jpg", "jpeg", "bmp", "tiff", "tif"]));
    m.register(profile("Animated WebP Converter", &["gif"]));
    m
}

#[test]
fn unknown_active_name_is_found() {
    let m = manager();
    assert_eq!(m.first_unknown(&strings(&["WebP Converter", "Nope", "Other"])), Some(1));
    assert_eq!(m.first_unknown(&strings(&["WebP Converter"])), None);
    assert_eq!(m.first_unknown(&Vec::new()), None);
}

#[test]
fn active_extensions_in_order() {
    let m = manager();
    let exts = m.active_extensions(&strings(&["Animated WebP Converter", "Image ZIP to WebP ZIP"]));
    assert_eq!(exts, strings(&["gif", "zip"]));
}

#[test]
fn merged_extensions_prefer_the_common_ones() {
    let supported = strings(&["png", "gif"]);
    assert_eq!(merge_extensions(&supported, &Some(strings(&["gif", "txt"]))), Some(strings(&["gif"])));
    assert_eq!(merge_extensions(&supported, &Some(strings(&["txt"]))), Some(strings(&["png", "gif"])));
    assert_eq!(merge_extensions(&supported, &None), Some(strings(&["png", "gif"])));
    assert_eq!(merge_extensions(&Vec::new(), &Some(strings(&["txt"]))), Some(strings(&["txt"])));
    assert_eq!(merge_extensions(&Vec::new(), &None), None);
}

#[test]
fn first_active_converter_that_accepts() {
    let m = manager();
    let verdicts = vec![false, true, true];
    let active = strings(&["Animated WebP Converter", "WebP Converter"]);
    assert_eq!(m.first_accepting(&verdicts, &active), Some(2));
    assert_eq!(m.first_accepting(&vec![false, false, false], &active), None);
}

#[test]
fn rejection_candidates_by_extension_or_all_active() {
    let m = manager();
    let active = strings(&["Animated WebP Converter", "WebP Converter"]);
    assert_eq!(m.rejection_candidates("PNG", &active), vec![1]);
    assert_eq!(m.rejection_candidates("zip", &active), vec![1, 2]);
    assert_eq!(m.rejection_candidates("", &active), vec![1, 2]);
    assert!(m.rejection_candidates("png", &Vec::new()).is_empty());
}

#[test]
fn text_helpers() {
    assert!(contains_text(&strings(&["a", "b"]), "b"));
    assert!(!contains_text(&strings(&["a", "b"]), "B"));
    assert!(supports(&profile("x", &["JPG"]), "jpg"));
    assert!(!supports(&profile("x", &["jpg"]), "jpeg"));
}
