//! The decisions of the three converters: which files each accepts and
//! why, how converted files and archive entries are named, and which archive
//! entries are converted.

use vstd::prelude::*;
use crate::compress_plugins::{conversion_pays_off, pays_off, PluginMetadata};
use crate::path::{
    extension, extension_of, file_stem, file_stem_of, has_extension, has_extension_spec,
    last_index, last_index_of,
};
use crate::scanner::opt_text;
use crate::text::{ends_with, lower_of, lowercase, text_ends_with, text_eq};

verus! {

/// A verdict as text: whether the file is accepted, and why.
pub open spec fn verdict_view(v: (bool, Option<String>)) -> (bool, Option<Seq<char>>) {
    (v.0, opt_text(v.1))
}

/// The image extensions the single-image converter accepts.
pub open spec fn still_image_exts() -> Seq<&'static str> {
    seq!["png", "jpg", "jpeg", "bmp", "tiff", "tif"]
}

/// What an image's header and size give: its size in bytes and its
/// dimensions in pixels.
pub struct ImageHeader {
    pub file_size: u64,
    pub width: u64,
    pub height: u64,
}

/// More than half a bit per pixel: `file_size * 8 / (width * height) > 0.5`.
pub open spec fn above_half_bit_per_pixel(h: ImageHeader) -> bool {
    h.width * h.height > 0 && 16 * h.file_size > h.width * h.height
}

/// The single-image converter's verdict on `path`. `is_file` says whether
/// the path names a regular file; `header`, for JPEG files, is what the
/// image's header gave, `None` where it could not be read.
pub open spec fn webp_verdict_spec(path: Seq<char>, is_file: bool, header: Option<ImageHeader>) -> (
    bool,
    Option<Seq<char>>,
) {
    if !is_file {
        (false, Some("Not a file"@))
    } else if !has_extension_spec(path, still_image_exts()) {
        (false, Some("File extension not supported"@))
    } else if has_extension_spec(path, seq!["webp"]) {
        (false, Some("Already a WebP file"@))
    } else if has_extension_spec(path, seq!["jpg", "jpeg"]) {
        match header {
            Some(h) => if above_half_bit_per_pixel(h) {
                (true, Some("JPEG with high BPP (above 0.5)"@))
            } else {
                (false, Some("JPEG BPP below threshold (0.5)"@))
            },
            None => (false, Some("JPEG BPP below threshold (0.5)"@)),
        }
    } else {
        (true, None)
    }
}

/// Whether `path` is a JPEG by its extension: the one case in which the
/// single-image converter reads the image header.
pub fn needs_header(path: &str) -> (r: bool)
    ensures
        r == has_extension_spec(path@, seq!["jpg", "jpeg"]),
{
    let exts: [&str; 2] = ["jpg", "jpeg"];
    assert(exts@ =~= seq!["jpg", "jpeg"]);
    has_extension(path, &exts)
}

/// Whether an image with this header has more than half a bit per pixel.
pub fn has_high_bpp(header: &ImageHeader) -> (r: bool)
    ensures
        r == above_half_bit_per_pixel(*header),
{
    let w = header.width as u128;
    let h = header.height as u128;
    assert(w * h <= 0xffff_ffff_ffff_ffffu128 * 0xffff_ffff_ffff_ffffu128) by (nonlinear_arith)
        requires
            w <= 0xffff_ffff_ffff_ffffu128,
            h <= 0xffff_ffff_ffff_ffffu128,
    ;
    let pixels: u128 = w * h;
    let bits: u128 = 16 * (header.file_size as u128);
    pixels > 0 && bits > pixels
}

/// The single-image converter's verdict on `path`: it accepts PNG, JPEG,
/// BMP and TIFF files, declines WebP ones, and declines JPEG files with half
/// a bit per pixel or less, which are already well compressed.
pub fn webp_verdict(path: &str, is_file: bool, header: Option<ImageHeader>) -> (r: (
    bool,
    Option<String>,
))
    ensures
        verdict_view(r) == webp_verdict_spec(path@, is_file, header),
{
    if !is_file {
        return (false, Some(String::from_str("Not a file")));
    }
    let supported: [&str; 6] = ["png", "jpg", "jpeg", "bmp", "tiff", "tif"];
    assert(supported@ =~= still_image_exts());
    if !has_extension(path, &supported) {
        return (false, Some(String::from_str("File extension not supported")));
    }
    let webp: [&str; 1] = ["webp"];
    assert(webp@ =~= seq!["webp"]);
    if has_extension(path, &webp) {
        return (false, Some(String::from_str("Already a WebP file")));
    }
    if needs_header(path) {
        let high = match &header {
            Some(h) => has_high_bpp(h),
            None => false,
        };
        if high {
            return (true, Some(String::from_str("JPEG with high BPP (above 0.5)")));
        }
        return (false, Some(String::from_str("JPEG BPP below threshold (0.5)")));
    }
    (true, None)
}

/// The single-image converter's metadata.
pub fn webp_metadata() -> (r: PluginMetadata)
    ensures
        r.name@ == "WebP Converter"@,
        r.description@ == "Converts PNG, JPEG, and other image formats to WebP"@,
        r.version@ == "1.0.0"@,
{
    PluginMetadata {
        name: String::from_str("WebP Converter"),
        description: String::from_str("Converts PNG, JPEG, and other image formats to WebP"),
        version: String::from_str("1.0.0"),
    }
}

/// The extensions the single-image converter supports.
pub fn webp_supported_extensions() -> (r: Vec<&'static str>)
    ensures
        r@ == still_image_exts(),
{
    let r = vec!["png", "jpg", "jpeg", "bmp", "tiff", "tif"];
    assert(r@ =~= still_image_exts());
    r
}

/// The animated converter's verdict on `path`: GIF files only, by their
/// extension in lower case.
pub open spec fn gif_verdict_spec(path: Seq<char>) -> (bool, Option<Seq<char>>) {
    match extension_of(path) {
        Some(e) => if lower_of(e) == "gif"@ {
            (true, Some("GIF file for animated WebP conversion"@))
        } else {
            (false, Some("Not a GIF file (extension: "@ + lower_of(e) + ")"@))
        },
        None => (false, Some("No file extension"@)),
    }
}

/// Converts GIF files to animated WebP through an external encoder.
pub struct AnimatedWebPConverterPlugin;

impl AnimatedWebPConverterPlugin {
    /// The converter's metadata.
    pub fn metadata(&self) -> (r: PluginMetadata)
        ensures
            r.name@ == "Animated WebP Converter"@,
            r.description@
                == "Convert GIF to Animated WebP with lossy compression for better file size"@,
            r.version@ == "1.0.0"@,
    {
        PluginMetadata {
            name: String::from_str("Animated WebP Converter"),
            description: String::from_str(
                "Convert GIF to Animated WebP with lossy compression for better file size",
            ),
            version: String::from_str("1.0.0"),
        }
    }

    /// Whether the converter accepts `path`, and why.
    pub fn can_handle(&self, path: &str) -> (r: (bool, Option<String>))
        ensures
            verdict_view(r) == gif_verdict_spec(path@),
    {
        match extension(path) {
            Some(e) => {
                let low = lowercase(e);
                if text_eq(low.as_str(), "gif") {
                    (true, Some(String::from_str("GIF file for animated WebP conversion")))
                } else {
                    let mut reason = String::from_str("Not a GIF file (extension: ");
                    reason.append(low.as_str());
                    reason.append(")");
                    (false, Some(reason))
                }
            },
            None => (false, Some(String::from_str("No file extension"))),
        }
    }

    /// The extensions the converter supports.
    pub fn supported_extensions(&self) -> (r: Vec<&'static str>)
        ensures
            r@ == seq!["gif"],
    {
        let r = vec!["gif"];
        assert(r@ =~= seq!["gif"]);
        r
    }
}

/// An archive entry name that denotes a still image, by its suffix in
/// lower case.
pub open spec fn image_name(n: Seq<char>) -> bool {
    let l = lower_of(n);
    ends_with(l, ".png"@) || ends_with(l, ".jpg"@) || ends_with(l, ".jpeg"@) || ends_with(
        l,
        ".bmp"@,
    ) || ends_with(l, ".tiff"@) || ends_with(l, ".tif"@)
}

/// An archive entry name that denotes a WebP image.
pub open spec fn webp_name(n: Seq<char>) -> bool {
    ends_with(lower_of(n), ".webp"@)
}

/// Whether an archive entry name denotes a still image.
pub fn is_image_file(filename: &str) -> (r: bool)
    ensures
        r == image_name(filename@),
{
    let low = lowercase(filename);
    let l = low.as_str();
    text_ends_with(l, ".png") || text_ends_with(l, ".jpg") || text_ends_with(l, ".jpeg")
        || text_ends_with(l, ".bmp") || text_ends_with(l, ".tiff") || text_ends_with(l, ".tif")
}

/// Whether an archive entry name denotes a WebP image.
pub fn is_webp(filename: &str) -> (r: bool)
    ensures
        r == webp_name(filename@),
{
    let low = lowercase(filename);
    text_ends_with(low.as_str(), ".webp")
}

/// Whether an archive entry is converted: still images that are not WebP
/// already. Every other entry is copied through unchanged.
pub fn should_convert_entry(name: &str) -> (r: bool)
    ensures
        r == (image_name(name@) && !webp_name(name@)),
{
    is_image_file(name) && !is_webp(name)
}

/// The name of a converted archive entry: its extension replaced by `webp`,
/// or `.webp` appended where it has no dot.
pub open spec fn webp_entry_name_of(n: Seq<char>) -> Seq<char> {
    let d = last_index_of(n, '.');
    if d >= 0 {
        n.subrange(0, d) + ".webp"@
    } else {
        n + ".webp"@
    }
}

/// The name under which a converted archive entry is stored.
pub fn webp_entry_name(name: &str) -> (r: String)
    ensures
        r@ == webp_entry_name_of(name@),
{
    let n = name.unicode_len();
    assert(name@.subrange(0, n as int) =~= name@);
    match last_index(name, n, '.') {
        Some(d) => {
            let mut r = String::from_str(name.substring_char(0, d));
            r.append(".webp");
            r
        },
        None => {
            let mut r = String::from_str(name);
            r.append(".webp");
            r
        },
    }
}

/// The file name of a repacked archive: the source's stem with `_webp.zip`.
pub open spec fn zip_output_filename_of(source: Seq<char>) -> Seq<char> {
    match file_stem_of(source) {
        Some(s) => s + "_webp.zip"@,
        None => "converted_webp.zip"@,
    }
}

/// The file name under which a repacked archive is first written.
pub fn zip_output_filename(source: &str) -> (r: String)
    ensures
        r@ == zip_output_filename_of(source@),
{
    match file_stem(source) {
        Some(s) => {
            let mut r = String::from_str(s);
            r.append("_webp.zip");
            r
        },
        None => String::from_str("converted_webp.zip"),
    }
}

/// How many names of `names` denote still images.
pub open spec fn image_count(names: Seq<String>) -> nat
    decreases names.len(),
{
    if names.len() == 0 {
        0
    } else {
        image_count(names.drop_last()) + if image_name(names.last()@) {
            1nat
        } else {
            0nat
        }
    }
}

/// How many names of `names` denote still images that are WebP already.
pub open spec fn webp_image_count(names: Seq<String>) -> nat
    decreases names.len(),
{
    if names.len() == 0 {
        0
    } else {
        webp_image_count(names.drop_last()) + if image_name(names.last()@) && webp_name(
            names.last()@,
        ) {
            1nat
        } else {
            0nat
        }
    }
}

/// What makes the archive converter accept a file: a `.zip` file whose
/// entries are images, in at least the configured share, not all of them
/// WebP already.
pub struct ZipRules {
    /// The least share of entries, in percent, that must be images.
    pub min_image_percent: u64,
}

impl ZipRules {
    /// Every entry must be an image.
    pub fn new() -> (r: Self)
        ensures
            r.min_image_percent == 100,
    {
        ZipRules { min_image_percent: 100 }
    }

    /// The same rules with another least share of images, capped at 100.
    pub fn with_min_image_percent(self, percent: u64) -> (r: Self)
        ensures
            r.min_image_percent == if percent > 100 {
                100
            } else {
                percent
            },
    {
        ZipRules { min_image_percent: if percent > 100 { 100 } else { percent } }
    }

    /// The entries qualify: some are images, not all of those are WebP, and
    /// images make up at least the configured share.
    pub open spec fn convertible(&self, names: Seq<String>) -> bool {
        &&& names.len() > 0
        &&& image_count(names) > 0
        &&& webp_image_count(names) < image_count(names)
        &&& image_count(names) * 100 >= self.min_image_percent * names.len()
    }

    /// The verdict on a file decided before its archive is opened: `Some`
    /// when it is not a file or not a `.zip`, `None` when the entries decide.
    pub open spec fn precheck_spec(path: Seq<char>, is_file: bool) -> Option<
        (bool, Option<Seq<char>>),
    > {
        if !is_file {
            Some((false, Some("Not a file"@)))
        } else if !has_extension_spec(path, seq!["zip"]) {
            Some((false, Some("Not a ZIP file"@)))
        } else {
            None
        }
    }

    /// The verdict on `path` that needs no look inside the archive.
    pub fn precheck(path: &str, is_file: bool) -> (r: Option<(bool, Option<String>)>)
        ensures
            match r {
                Some(v) => Self::precheck_spec(path@, is_file) == Some(verdict_view(v)),
                None => Self::precheck_spec(path@, is_file) is None,
            },
    {
        if !is_file {
            return Some((false, Some(String::from_str("Not a file"))));
        }
        let zip: [&str; 1] = ["zip"];
        assert(zip@ =~= seq!["zip"]);
        if !has_extension(path, &zip) {
            return Some((false, Some(String::from_str("Not a ZIP file"))));
        }
        None
    }

    /// The verdict on an archive with the entry names `names`.
    pub fn entries_verdict(&self, names: &Vec<String>) -> (r: (bool, Option<String>))
        ensures
            r.0 == self.convertible(names@),
            opt_text(r.1) == Some(
                if self.convertible(names@) {
                    "ZIP file contains convertible images"@
                } else {
                    "ZIP file contains no convertible images"@
                },
            ),
    {
        let n = names.len();
        let mut images: usize = 0;
        let mut webps: usize = 0;
        let mut i: usize = 0;
        while i < n
            invariant
                n == names@.len(),
                i <= n,
                images == image_count(names@.take(i as int)),
                webps == webp_image_count(names@.take(i as int)),
                webps <= images <= i,
            decreases n - i,
        {
            assert(names@.take(i + 1).drop_last() =~= names@.take(i as int));
            if is_image_file(names[i].as_str()) {
                images += 1;
                if is_webp(names[i].as_str()) {
                    webps += 1;
                }
            }
            i += 1;
        }
        assert(names@.take(n as int) =~= names@);
        let p = self.min_image_percent as u128;
        let m = n as u128;
        assert(p * m <= 0xffff_ffff_ffff_ffffu128 * 0xffff_ffff_ffff_ffffu128) by (nonlinear_arith)
            requires
                p <= 0xffff_ffff_ffff_ffffu128,
                m <= 0xffff_ffff_ffff_ffffu128,
        ;
        let share_ok = (images as u128) * 100 >= p * m;
        let ok = n > 0 && images > 0 && webps < images && share_ok;
        if ok {
            (true, Some(String::from_str("ZIP file contains convertible images")))
        } else {
            (false, Some(String::from_str("ZIP file contains no convertible images")))
        }
    }
}

/// The archive converter's metadata.
pub fn zip_metadata() -> (r: PluginMetadata)
    ensures
        r.name@ == "Image ZIP to WebP ZIP"@,
        r.description@ == "Converts images inside ZIP archives to WebP format"@,
        r.version@ == "1.0.0"@,
{
    PluginMetadata {
        name: String::from_str("Image ZIP to WebP ZIP"),
        description: String::from_str("Converts images inside ZIP archives to WebP format"),
        version: String::from_str("1.0.0"),
    }
}

/// A step that finishes a conversion on disk.
#[derive(Clone, Copy, Debug, PartialEq, Eq, Structural)]
pub enum FileAction {
    /// Remove the converted output.
    DeleteOutput,
    /// Remove the source file.
    DeleteSource,
    /// Move the converted output to the source's place.
    MoveOutputOverSource,
    /// Move the source to its backup name.
    MoveSourceToBackup,
}

/// Whether an action changes or removes the source file.
pub open spec fn touches_source(a: FileAction) -> bool {
    a != FileAction::DeleteOutput
}

/// How a conversion ends: the file actions to take, in order, and whether
/// the conversion succeeds.
pub struct FinishPlan {
    pub actions: Vec<FileAction>,
    pub succeeds: bool,
}

/// The single-image converter's ending: a smaller output replaces the
/// source, which is deleted; any other output is deleted and the source kept.
pub open spec fn single_image_finish(original_size: u64, compressed_size: u64) -> (
    Seq<FileAction>,
    bool,
) {
    if pays_off(original_size, compressed_size) {
        (seq![FileAction::DeleteSource], true)
    } else {
        (seq![FileAction::DeleteOutput], false)
    }
}

/// The animated converter's ending: a smaller output takes the source's
/// place; any other output is deleted and the source kept.
pub open spec fn animated_finish(original_size: u64, compressed_size: u64) -> (
    Seq<FileAction>,
    bool,
) {
    if pays_off(original_size, compressed_size) {
        (seq![FileAction::DeleteSource, FileAction::MoveOutputOverSource], true)
    } else {
        (seq![FileAction::DeleteOutput], false)
    }
}

/// The archive converter's ending: the source moves to its backup name and
/// the repacked archive takes its place.
pub open spec fn archive_finish() -> (Seq<FileAction>, bool) {
    (seq![FileAction::MoveSourceToBackup, FileAction::MoveOutputOverSource], true)
}

/// How a single-image conversion from `original_size` to `compressed_size`
/// bytes ends.
pub fn finish_single_image(original_size: u64, compressed_size: u64) -> (r: FinishPlan)
    ensures
        (r.actions@, r.succeeds) == single_image_finish(original_size, compressed_size),
{
    if conversion_pays_off(original_size, compressed_size) {
        let r = FinishPlan { actions: vec![FileAction::DeleteSource], succeeds: true };
        assert(r.actions@ =~= seq![FileAction::DeleteSource]);
        r
    } else {
        let r = FinishPlan { actions: vec![FileAction::DeleteOutput], succeeds: false };
        assert(r.actions@ =~= seq![FileAction::DeleteOutput]);
        r
    }
}

/// How an animated conversion from `original_size` to `compressed_size`
/// bytes ends.
pub fn finish_animated(original_size: u64, compressed_size: u64) -> (r: FinishPlan)
    ensures
        (r.actions@, r.succeeds) == animated_finish(original_size, compressed_size),
{
    if conversion_pays_off(original_size, compressed_size) {
        let r = FinishPlan {
            actions: vec![FileAction::DeleteSource, FileAction::MoveOutputOverSource],
            succeeds: true,
        };
        assert(r.actions@ =~= seq![FileAction::DeleteSource, FileAction::MoveOutputOverSource]);
        r
    } else {
        let r = FinishPlan { actions: vec![FileAction::DeleteOutput], succeeds: false };
        assert(r.actions@ =~= seq![FileAction::DeleteOutput]);
        r
    }
}

/// How an archive repack ends once the new archive is written.
pub fn finish_archive() -> (r: FinishPlan)
    ensures
        (r.actions@, r.succeeds) == archive_finish(),
{
    let r = FinishPlan {
        actions: vec![FileAction::MoveSourceToBackup, FileAction::MoveOutputOverSource],
        succeeds: true,
    };
    assert(r.actions@ =~= seq![FileAction::MoveSourceToBackup, FileAction::MoveOutputOverSource]);
    r
}

/// Where an archive repack may not write: it fails before writing anything
/// when its output or its backup name is taken.
pub fn archive_preflight(output_exists: bool, backup_exists: bool) -> (r: Result<(), String>)
    ensures
        r is Ok <==> (!output_exists && !backup_exists),
{
    if output_exists {
        return Err(String::from_str("Output file already exists"));
    }
    if backup_exists {
        return Err(String::from_str("Backup file already exists"));
    }
    Ok(())
}

/// A conversion that fails leaves its source alone: no ending of a failed
/// conversion deletes, moves or overwrites the source file, and every
/// ending that touches the source is one of a conversion that succeeds
/// with a strictly smaller output (or an archive repack, which keeps the
/// original under its backup name).
pub proof fn failed_conversions_leave_source_alone(original_size: u64, compressed_size: u64)
    ensures
        !single_image_finish(original_size, compressed_size).1 ==> forall|i: int|
            0 <= i < single_image_finish(original_size, compressed_size).0.len()
                ==> !touches_source(#[trigger] single_image_finish(original_size, compressed_size).0[i]),
        !animated_finish(original_size, compressed_size).1 ==> forall|i: int|
            0 <= i < animated_finish(original_size, compressed_size).0.len() ==> !touches_source(
                #[trigger] animated_finish(original_size, compressed_size).0[i],
            ),
        single_image_finish(original_size, compressed_size).1 ==> compressed_size < original_size,
        animated_finish(original_size, compressed_size).1 ==> compressed_size < original_size,
        archive_finish().0[0] == FileAction::MoveSourceToBackup,
{
}

/// A converter's verdict depends on nothing but the path and what the file
/// holds: asked twice of a file that has not changed, each converter answers
/// the same.
pub proof fn verdicts_are_stable(
    path: Seq<char>,
    is_file: bool,
    header: Option<ImageHeader>,
    names: Seq<String>,
    rules: ZipRules,
    path_again: Seq<char>,
    is_file_again: bool,
    header_again: Option<ImageHeader>,
    names_again: Seq<String>,
)
    requires
        path_again == path,
        is_file_again == is_file,
        header_again == header,
        names_again == names,
    ensures
        webp_verdict_spec(path, is_file, header) == webp_verdict_spec(
            path_again,
            is_file_again,
            header_again,
        ),
        gif_verdict_spec(path) == gif_verdict_spec(path_again),
        ZipRules::precheck_spec(path, is_file) == ZipRules::precheck_spec(
            path_again,
            is_file_again,
        ),
        rules.convertible(names) == rules.convertible(names_again),
{
}

} // verus!
