use space_saver::compress_plugins::{conversion_pays_off, PluginManager, PluginMetadata, PluginProfile};
use space_saver::path::{extension, file_name, file_stem, generate_output_filename, has_extension};
use space_saver::plugins::{
    archive_preflight, finish_animated, finish_archive, finish_single_image, FileAction,
    is_image_file, is_webp, needs_header, should_convert_entry, webp_entry_name, webp_metadata,
    webp_supported_extensions, webp_verdict, zip_metadata, zip_output_filename,
    AnimatedWebPConverterPlugin, ImageHeader, ZipRules,
};

fn profile(name: &str, extensions: &[&str]) -> PluginProfile {
    PluginProfile {
        metadata: PluginMetadata {
            name: name.to_string(),
            description: "Mock plugin".to_string(),
            version: "1.0.0".to_string(),
        },
        extensions: extensions.iter().map(|s| s.to_string()).collect(),
    }
}

/// The verdict of a plugin that accepts files by extension.
fn verdicts(manager: &PluginManager, path: &str) -> Vec<bool> {
    manager
        .plugins
        .iter()
        .map(|p| {
            let exts: Vec<&str> = p.extensions.iter().map(|s| s.as_str()).collect();
            has_extension(path, &exts)
        })
        .collect()
}

#[test]
fn test_plugin_registration() {
    let mut manager = PluginManager::new();
    manager.register(profile("Plugin1", &["txt"]));
    manager.register(profile("Plugin2", &["txt"]));

    let v = verdicts(&manager, "test.txt");
    let k = manager.find_plugin(&v).unwrap();
    assert_eq!(manager.plugins[k].metadata.name, "Plugin1");
}

#[test]
fn test_custom_plugin_manager_for_testing() {
    let mut manager = PluginManager::new();
    manager.register(profile("Test Plugin", &["test"]));
    let plugins = manager.get_plugins();

    assert_eq!(plugins.len(), 1);
    assert_eq!(plugins[0].name, "Test Plugin");
}

#[test]
fn test_plugin_orders() {
    let mut manager = PluginManager::new();
    manager.register(profile("Plugin1", &["txt"]));
    manager.register(profile("Plugin2", &["txt"]));
    let v = verdicts(&manager, "test.txt");

    let k = manager.choose_plugin(&v, None).unwrap();
    assert_eq!(manager.plugins[k].metadata.name, "Plugin1");

    let orders = vec!["Plugin2".to_string()];
    let k = manager.choose_plugin(&v, Some(&orders)).unwrap();
    assert_eq!(manager.plugins[k].metadata.name, "Plugin2");

    let orders = vec!["Nonexistent Plugin".to_string()];
    let k = manager.choose_plugin(&v, Some(&orders)).unwrap();
    assert_eq!(manager.plugins[k].metadata.name, "Plugin1");
}

#[test]
fn unknown_preferred_name_falls_back_to_a_capable_plugin() {
    let mut manager = PluginManager::new();
    manager.register(profile("Images", &["png"]));
    manager.register(profile("Fallback", &["bin"]));
    let v = verdicts(&manager, "data.bin");
    let orders = vec!["Nonexistent Plugin".to_string()];
    let k = manager.choose_plugin(&v, Some(&orders)).unwrap();
    assert_eq!(manager.plugins[k].metadata.name, "Fallback");
}

#[test]
fn declining_preferred_plugin_is_passed_over() {
    let mut manager = PluginManager::new();
    manager.register(profile("A", &["txt"]));
    manager.register(profile("B", &["png"]));
    manager.register(profile("C", &["txt"]));
    let v = verdicts(&manager, "x.txt");
    let orders = vec!["B".to_string(), "C".to_string()];
    assert_eq!(manager.choose_plugin(&v, Some(&orders)), Some(2));
    assert_eq!(manager.choose_plugin(&verdicts(&manager, "x.doc"), Some(&orders)), None);
    assert_eq!(manager.find_all_plugins(&v), vec![0, 2]);
    assert_eq!(manager.plugin_named("C"), Some(2));
    assert_eq!(manager.plugin_named("D"), None);
}

#[test]
fn test_get_plugins_by_extension() {
    let mut manager = PluginManager::new();
    manager.register(profile("PNG Handler", &["png", "bmp"]));
    manager.register(profile("JPEG Handler", &["jpg", "jpeg"]));
    manager.register(profile("Multi Format Handler", &["png", "jpg", "gif"]));

    let png_plugins = manager.get_plugins_by_extension("png");
    assert_eq!(png_plugins.len(), 2);
    let png_names: Vec<_> = png_plugins.iter().map(|p| p.name.as_str()).collect();
    assert!(png_names.contains(&"PNG Handler"));
    assert!(png_names.contains(&"Multi Format Handler"));

    let jpg_plugins = manager.get_plugins_by_extension("jpg");
    assert_eq!(jpg_plugins.len(), 2);
    let jpg_names: Vec<_> = jpg_plugins.iter().map(|p| p.name.as_str()).collect();
    assert!(jpg_names.contains(&"JPEG Handler"));
    assert!(jpg_names.contains(&"Multi Format Handler"));

    let jpeg_plugins = manager.get_plugins_by_extension("jpeg");
    assert_eq!(jpeg_plugins.len(), 1);
    assert_eq!(jpeg_plugins[0].name, "JPEG Handler");

    let png_plugins_upper = manager.get_plugins_by_extension("PNG");
    assert_eq!(png_plugins_upper.len(), 2);

    let unknown_plugins = manager.get_plugins_by_extension("xyz");
    assert_eq!(unknown_plugins.len(), 0);
}

#[test]
fn supported_extensions_by_plugin_name() {
    let mut manager = PluginManager::new();
    manager.register(profile("A", &["png", "bmp"]));
    assert_eq!(manager.get_supported_extensions("A"), vec!["png".to_string(), "bmp".to_string()]);
    assert!(manager.get_supported_extensions("B").is_empty());
}

#[test]
fn test_can_handle_gif() {
    let plugin = AnimatedWebPConverterPlugin;
    let (can_handle, reason) = plugin.can_handle("test.gif");
    assert!(can_handle);
    assert_eq!(reason, Some("GIF file for animated WebP conversion".to_string()));

    let (can_handle, _) = plugin.can_handle("TEST.GIF");
    assert!(can_handle);

    let (can_handle, reason) = plugin.can_handle("test.png");
    assert!(!can_handle);
    assert!(reason.is_some());

    let (can_handle, reason) = plugin.can_handle("test.jpg");
    assert!(!can_handle);
    assert!(reason.is_some());
}

#[test]
fn gif_rejection_names_the_extension() {
    let plugin = AnimatedWebPConverterPlugin;
    assert_eq!(plugin.can_handle("a.PNG").1, Some("Not a GIF file (extension: png)".to_string()));
    assert_eq!(plugin.can_handle("noext"), (false, Some("No file extension".to_string())));
    assert_eq!(plugin.can_handle("x.gif"), plugin.can_handle("x.gif"));
}

#[test]
fn test_metadata() {
    let plugin = AnimatedWebPConverterPlugin;
    let metadata = plugin.metadata();
    assert_eq!(metadata.name, "Animated WebP Converter");
}

#[test]
fn animated_webp_converter_test_supported_extensions() {
    let plugin = AnimatedWebPConverterPlugin;
    let extensions = plugin.supported_extensions();
    assert_eq!(extensions, vec!["gif"]);
}

#[test]
fn test_can_handle_png() {
    // test.png does not exist, so it is not a file.
    let (can_handle, reason) = webp_verdict("test.png", false, None);
    assert!(!can_handle);
    assert!(reason.is_some());
}

#[test]
fn test_cannot_handle_webp() {
    let (can_handle, reason) = webp_verdict("test.webp", false, None);
    assert!(!can_handle);
    assert_eq!(reason, Some("Not a file".to_string()));
}

#[test]
fn webp_converter_test_supported_extensions() {
    let extensions = webp_supported_extensions();
    assert!(extensions.contains(&"png"));
    assert!(extensions.contains(&"jpg"));
    assert!(extensions.contains(&"jpeg"));
}

#[test]
fn webp_verdicts_by_kind() {
    assert_eq!(webp_verdict("a.png", true, None), (true, None));
    assert_eq!(
        webp_verdict("a.webp", true, None),
        (false, Some("File extension not supported".to_string()))
    );
    assert_eq!(
        webp_verdict("a.txt", true, None),
        (false, Some("File extension not supported".to_string()))
    );
    assert_eq!(webp_metadata().name, "WebP Converter");
    assert_eq!(zip_metadata().name, "Image ZIP to WebP ZIP");
}

#[test]
fn low_bpp_jpeg_is_declined_with_the_threshold() {
    // 100 x 100 pixels in 600 bytes: 0.48 bits per pixel.
    let header = ImageHeader { file_size: 600, width: 100, height: 100 };
    assert!(needs_header("photo.JPG"));
    let (can_handle, reason) = webp_verdict("photo.JPG", true, Some(header));
    assert!(!can_handle);
    assert_eq!(reason, Some("JPEG BPP below threshold (0.5)".to_string()));
    assert!(reason.unwrap().contains("0.5"));
}

#[test]
fn high_bpp_jpeg_is_accepted() {
    // 100 x 100 pixels in 700 bytes: 0.56 bits per pixel.
    let header = ImageHeader { file_size: 700, width: 100, height: 100 };
    assert_eq!(
        webp_verdict("photo.jpeg", true, Some(header)),
        (true, Some("JPEG with high BPP (above 0.5)".to_string()))
    );
    // Exactly 0.5 bits per pixel is not above the threshold.
    let header = ImageHeader { file_size: 625, width: 100, height: 100 };
    assert!(!webp_verdict("photo.jpg", true, Some(header)).0);
    let header = ImageHeader { file_size: 625, width: 0, height: 100 };
    assert!(!webp_verdict("photo.jpg", true, Some(header)).0);
    assert!(!webp_verdict("photo.jpg", true, None).0);
}

#[test]
fn larger_output_is_not_kept() {
    assert!(!conversion_pays_off(1000, 1500));
    assert!(!conversion_pays_off(1000, 1000));
    assert!(conversion_pays_off(1000, 999));
}

#[test]
fn test_is_image_file() {
    assert!(is_image_file("photo.png"));
    assert!(is_image_file("image.jpg"));
    assert!(is_image_file("PHOTO.JPEG"));
    assert!(!is_image_file("document.pdf"));
    assert!(!is_image_file("video.mp4"));
}

#[test]
fn test_is_webp() {
    assert!(is_webp("photo.webp"));
    assert!(is_webp("PHOTO.WEBP"));
    assert!(!is_webp("photo.png"));
}

#[test]
fn zip_entries_and_names() {
    let rules = ZipRules::new();
    let all_images = vec!["a.png".to_string(), "b/c.JPG".to_string()];
    assert_eq!(
        rules.entries_verdict(&all_images),
        (true, Some("ZIP file contains convertible images".to_string()))
    );
    let mixed = vec!["a.png".to_string(), "readme.txt".to_string()];
    assert!(!rules.entries_verdict(&mixed).0);
    assert!(ZipRules::new().with_min_image_percent(50).entries_verdict(&mixed).0);
    assert_eq!(ZipRules::new().with_min_image_percent(500).min_image_percent, 100);
    assert!(!rules.entries_verdict(&Vec::new()).0);
    assert_eq!(ZipRules::precheck("a.zip", false), Some((false, Some("Not a file".to_string()))));
    assert_eq!(ZipRules::precheck("a.rar", true), Some((false, Some("Not a ZIP file".to_string()))));
    assert_eq!(ZipRules::precheck("a.ZIP", true), None);
    assert!(should_convert_entry("x.png"));
    assert!(!should_convert_entry("x.webp"));
    assert!(!should_convert_entry("x.txt"));
    assert_eq!(webp_entry_name("dir/photo.png"), "dir/photo.webp");
    assert_eq!(webp_entry_name("noext"), "noext.webp");
    assert_eq!(zip_output_filename("/tmp/album.zip"), "album_webp.zip");
    assert_eq!(zip_output_filename("/"), "converted_webp.zip");
}

#[test]
fn paths_are_read_like_std_paths() {
    assert_eq!(file_name("a/b/c.txt"), Some("c.txt"));
    assert_eq!(file_name("a/b/"), Some("b"));
    assert_eq!(file_name("a/.."), None);
    assert_eq!(extension("a/b.tar.gz"), Some("gz"));
    assert_eq!(extension("a/.bashrc"), None);
    assert_eq!(extension("a/b."), Some(""));
    assert_eq!(file_stem("a/b.tar.gz"), Some("b.tar"));
    assert_eq!(file_stem(".bashrc"), Some(".bashrc"));
    assert!(has_extension("x.PNG", &["png"]));
    assert!(!has_extension("png", &["png"]));
    assert_eq!(generate_output_filename("dir/photo.png", "webp"), "photo.webp");
    assert_eq!(generate_output_filename("/", "webp"), "output.webp");
}

#[test]
fn larger_webp_output_is_deleted_and_source_kept() {
    let plan = finish_single_image(1000, 1500);
    assert!(!plan.succeeds);
    assert_eq!(plan.actions, vec![FileAction::DeleteOutput]);
    let plan = finish_single_image(1000, 400);
    assert!(plan.succeeds);
    assert_eq!(plan.actions, vec![FileAction::DeleteSource]);
}

#[test]
fn animated_and_archive_endings() {
    assert_eq!(finish_animated(10, 10).actions, vec![FileAction::DeleteOutput]);
    assert_eq!(
        finish_animated(10, 9).actions,
        vec![FileAction::DeleteSource, FileAction::MoveOutputOverSource]
    );
    assert_eq!(
        finish_archive().actions,
        vec![FileAction::MoveSourceToBackup, FileAction::MoveOutputOverSource]
    );
    assert!(archive_preflight(false, false).is_ok());
    assert!(archive_preflight(true, false).is_err());
    assert!(archive_preflight(false, true).is_err());
}
